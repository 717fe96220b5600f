//! How the judgements of the game become strengths.

use crate::address::normalized;
use crate::client::{new_client, WsTransport};
use crate::text::{chars_of, i32_of, parse_i32, trim, trimmed};
use crate::transport::{DglabTransport, Transport};
use vstd::prelude::*;

verus! {

/// How well a note was hit.
#[derive(Clone, Copy, Debug, PartialEq, Eq, Structural)]
pub enum Judgement {
    Perfect,
    Good,
    Bad,
    Miss,
}

/// The kinds of judgement that the device tells apart.
#[derive(Clone, Copy, Debug, PartialEq, Eq, Structural)]
pub enum DglabKind {
    Perfect,
    Good,
    BadMiss,
}

/// The kind of a judgement.
pub open spec fn kind_of(judgement: Judgement) -> DglabKind {
    match judgement {
        Judgement::Perfect => DglabKind::Perfect,
        Judgement::Good => DglabKind::Good,
        Judgement::Bad | Judgement::Miss => DglabKind::BadMiss,
    }
}

/// The kind of what the game reports of a note: a judgement, or only whether it was hit perfectly.
pub open spec fn kind_of_result(result: Result<Judgement, bool>) -> DglabKind {
    match result {
        Ok(judgement) => kind_of(judgement),
        Err(true) => DglabKind::Perfect,
        Err(false) => DglabKind::Good,
    }
}

impl DglabKind {
    /// The kind of a judgement.
    pub fn from_judgement(judgement: Judgement) -> (kind: DglabKind)
        ensures
            kind == kind_of(judgement),
    {
        match judgement {
            Judgement::Perfect => DglabKind::Perfect,
            Judgement::Good => DglabKind::Good,
            Judgement::Bad | Judgement::Miss => DglabKind::BadMiss,
        }
    }
}

/// The settings of the user.
pub struct Config {
    /// Whether the device is used at all.
    pub dglab_enabled: bool,
    /// The address of the relay.
    pub dglab_ws_url: String,
    /// The strength for a perfect hit.
    pub dglab_perfect_power: String,
    /// The strength for a good hit.
    pub dglab_good_power: String,
    /// The strength for a bad hit or a miss.
    pub dglab_badmiss_power: String,
}

/// What the game reports of one note.
pub struct JudgeEvent {
    pub line_id: u32,
    pub note_id: u32,
    pub result: Result<Judgement, bool>,
}

/// What the game has reported since it was last asked.
pub struct Judge {
    pub judgements: Vec<JudgeEvent>,
}

/// `v`, or the nearest number from 0 to 200.
pub open spec fn clamped(v: int) -> u8 {
    if v < 0 {
        0
    } else if v > 200 {
        200
    } else {
        v as u8
    }
}

/// The strength that a setting writes, brought into the range from 0 to 200; 0 where it writes no
/// number.
pub open spec fn configured_strength(raw: Seq<char>) -> u8 {
    match i32_of(trimmed(raw)) {
        Some(v) => clamped(v),
        None => 0,
    }
}

/// Reads a strength from a setting. What is empty or no number stands for 0, so that a setting that
/// cannot be read never makes the device act; the strength that is usual for the kind of judgement
/// does not take its place.
pub fn read_configured_strength(raw: &str, _usual: u8) -> (r: u8)
    ensures
        r == configured_strength(raw@),
{
    match parse_i32(&chars_of(trim(raw))) {
        Some(v) => {
            if v < 0 {
                0
            } else if v > 200 {
                200
            } else {
                v as u8
            }
        },
        None => 0,
    }
}

/// The strength for a kind of judgement.
pub open spec fn strength_for(kind: DglabKind, config: Config) -> u8 {
    match kind {
        DglabKind::Perfect => configured_strength(config.dglab_perfect_power@),
        DglabKind::Good => configured_strength(config.dglab_good_power@),
        DglabKind::BadMiss => configured_strength(config.dglab_badmiss_power@),
    }
}

/// The strength that a report calls for.
pub open spec fn strength_of(event: JudgeEvent, config: Config) -> u8 {
    strength_for(kind_of_result(event.result), config)
}

/// The kind of what the game reports of a note, and the strength that it calls for.
pub fn pulse(event: &JudgeEvent, config: &Config) -> (r: (DglabKind, u8))
    ensures
        r.0 == kind_of_result(event.result),
        r.1 == strength_of(*event, *config),
{
    let kind: DglabKind = match event.result {
        Ok(judgement) => DglabKind::from_judgement(judgement),
        Err(perfect) => {
            if perfect {
                DglabKind::Perfect
            } else {
                DglabKind::Good
            }
        },
    };
    let strength: u8 = match kind {
        DglabKind::Perfect => read_configured_strength(config.dglab_perfect_power.as_str(), 80),
        DglabKind::Good => read_configured_strength(config.dglab_good_power.as_str(), 50),
        DglabKind::BadMiss => read_configured_strength(config.dglab_badmiss_power.as_str(), 100),
    };
    (kind, strength)
}

/// The state of a transport after the reports were passed on, oldest first. A report is dropped
/// where the transport is not connected when its turn comes.
pub open spec fn pumped<T: DglabTransport>(
    state: T::State,
    events: Seq<JudgeEvent>,
    config: Config,
) -> T::State
    decreases events.len(),
{
    if events.len() == 0 {
        state
    } else {
        let before = pumped::<T>(state, events.drop_last(), config);
        if T::is_connected(before) {
            T::with_strength(before, strength_of(events.last(), config))
        } else {
            before
        }
    }
}

/// Passes what the game has reported on to the transport.
pub fn pump_judgements<T: DglabTransport>(transport: &mut T, judge: &mut Judge, config: &Config)
    ensures
        final(transport).state() == pumped::<T>(
            old(transport).state(),
            old(judge).judgements@,
            *config,
        ),
        final(judge).judgements@.len() == 0,
{
    let mut drained: Vec<JudgeEvent> = Vec::new();
    std::mem::swap(&mut drained, &mut judge.judgements);
    let mut i: usize = 0;
    assert(drained@.take(0) =~= Seq::<JudgeEvent>::empty());
    while i < drained.len()
        invariant
            i <= drained@.len(),
            drained@ == old(judge).judgements@,
            transport.state() == pumped::<T>(
                old(transport).state(),
                drained@.take(i as int),
                *config,
            ),
        decreases drained.len() - i,
    {
        let (_, strength): (DglabKind, u8) = pulse(&drained[i], config);
        assert(drained@.take(i + 1).drop_last() =~= drained@.take(i as int));
        if transport.connected() {
            transport.set_strength(strength);
        }
        i = i + 1;
    }
    assert(drained@.take(drained@.len() as int) =~= drained@);
}

/// The transport for a game: none where the device is not used, the server where one runs, else a
/// client of the relay.
pub fn build_dglab_update_fn<S>(config: &Config, server: Option<S>) -> (r: Option<
    Transport<S, WsTransport>,
>)
    ensures
        r is Some == config.dglab_enabled,
        config.dglab_enabled ==> match server {
            Some(s) => r == Some(Transport::<S, WsTransport>::Server(s)),
            None => {
                &&& r->0 is Client
                &&& r->0->Client_0@ == new_client(normalized(config.dglab_ws_url@))
            },
        },
{
    if !config.dglab_enabled {
        return None;
    }
    match server {
        Some(s) => Some(Transport::Server(s)),
        None => Some(Transport::Client(WsTransport::connect(config.dglab_ws_url.as_str()))),
    }
}

}
