//! What holds of the way from a judgement to the device.

use crate::client::{ClientView, WsTransport, QUEUE_CAPACITY};
use crate::conns::waiting;
use crate::judge::{configured_strength, pumped, strength_of};
use crate::judge::{Config, JudgeEvent};
use crate::judge::{kind_of, kind_of_result, DglabKind, Judgement};
use crate::laws::server::law_strength_reaches_both_channels;
use crate::laws::text::{bare, blank, law_integer_is_read, law_integer_is_unique, law_trimming};
use crate::laws::text::{digit, law_number_is_written_plainly, plain, writes_signed};
use crate::packet::FrameView;
use crate::server::{DglabServer, ServerView};
use crate::text::{i32_of, trimmed};
use crate::packet::FrameKind;
use crate::transport::{DglabTransport, Transport, TransportState};
use vstd::prelude::*;

verus! {

/// Whatever the settings and whatever the game reports, the strength is at most 200.
pub proof fn law_strengths_are_in_range(event: JudgeEvent, config: Config)
    ensures
        strength_of(event, config) <= 200,
{
}

/// A setting that writes a number from 0 to 200 gives that number.
pub proof fn law_setting_in_range_is_taken(raw: Seq<char>, v: int)
    requires
        i32_of(trimmed(raw)) == Some(v),
        0 <= v <= 200,
    ensures
        configured_strength(raw) == v,
{
}

/// A setting that writes no number gives 0, whatever the kind of judgement.
pub proof fn law_unreadable_setting_gives_nothing(raw: Seq<char>)
    requires
        i32_of(trimmed(raw)) is None,
    ensures
        configured_strength(raw) == 0,
{
}

/// A transport that is not connected is left as it is.
pub proof fn law_disconnected_gets_nothing<T: DglabTransport>(
    state: T::State,
    events: Seq<JudgeEvent>,
    config: Config,
)
    requires
        !T::is_connected(state),
    ensures
        pumped::<T>(state, events, config) == state,
    decreases events.len(),
{
    if events.len() > 0 {
        law_disconnected_gets_nothing::<T>(state, events.drop_last(), config);
    }
}

/// Passing on two runs of reports one after the other is the same as passing on both at once.
pub proof fn law_pumping_in_parts<T: DglabTransport>(
    state: T::State,
    first: Seq<JudgeEvent>,
    second: Seq<JudgeEvent>,
    config: Config,
)
    ensures
        pumped::<T>(state, first + second, config) == pumped::<T>(
            pumped::<T>(state, first, config),
            second,
            config,
        ),
    decreases second.len(),
{
    if second.len() == 0 {
        assert(first + second =~= first);
    } else {
        law_pumping_in_parts::<T>(state, first, second.drop_last(), config);
        assert((first + second).drop_last() =~= first + second.drop_last());
    }
}

/// The messages for a run of reports: two for each of them, in order.
pub open spec fn messages(s: ServerView, events: Seq<JudgeEvent>, config: Config) -> Seq<FrameView>
    decreases events.len(),
{
    if events.len() == 0 {
        Seq::empty()
    } else {
        let strength = strength_of(events.last(), config);
        messages(s, events.drop_last(), config).push(s.strength_frame(1, strength)).push(
            s.strength_frame(2, strength),
        )
    }
}

/// Over a connected server whose paired APP has an open connection, every report becomes two
/// messages to that APP, in order, and nothing else changes.
pub proof fn law_every_report_reaches_the_app(
    s: ServerView,
    events: Seq<JudgeEvent>,
    config: Config,
)
    requires
        DglabServer::is_connected(s),
        s.conns.contains_key(s.paired_conn),
    ensures
        ({
            let t = pumped::<DglabServer>(s, events, config);
            &&& waiting(t.conns, s.paired_conn) == waiting(s.conns, s.paired_conn) + messages(
                s,
                events,
                config,
            )
            &&& forall|id: Seq<char>|
                id != s.paired_conn ==> #[trigger] waiting(t.conns, id) == waiting(s.conns, id)
            &&& t.conns.dom() == s.conns.dom()
            &&& t == (ServerView { conns: t.conns, ..s })
        }),
        messages(s, events, config).len() == 2 * events.len(),
    decreases events.len(),
{
    if events.len() == 0 {
        assert(waiting(s.conns, s.paired_conn) + messages(s, events, config) =~= waiting(
            s.conns,
            s.paired_conn,
        ));
    } else {
        law_every_report_reaches_the_app(s, events.drop_last(), config);
        let before = pumped::<DglabServer>(s, events.drop_last(), config);
        let strength = strength_of(events.last(), config);
        assert(before.conns.contains_key(s.paired_conn));
        law_strength_reaches_both_channels(before, strength);
        let t = pumped::<DglabServer>(s, events, config);
        assert(t == before.strengthened(strength));
        assert(waiting(t.conns, s.paired_conn) =~= waiting(s.conns, s.paired_conn) + messages(
            s,
            events,
            config,
        ));
        assert forall|id: Seq<char>| id != s.paired_conn implies #[trigger] waiting(t.conns, id)
            == waiting(s.conns, id) by {
            assert(waiting(before.strengthened(strength).conns, id) == waiting(before.conns, id));
        }
    }
}

/// Over a connected client with room in its line, every report puts its strength in line, in order,
/// and nothing else changes.
pub proof fn law_every_report_is_put_in_line(
    c: ClientView,
    events: Seq<JudgeEvent>,
    config: Config,
)
    requires
        c.connected,
        c.queue.len() + events.len() <= QUEUE_CAPACITY,
    ensures
        pumped::<WsTransport>(c, events, config) == (ClientView {
            queue: c.queue + events.map_values(|e: JudgeEvent| strength_of(e, config)),
            ..c
        }),
    decreases events.len(),
{
    let strengths = events.map_values(|e: JudgeEvent| strength_of(e, config));
    if events.len() == 0 {
        assert(c.queue + strengths =~= c.queue);
    } else {
        law_every_report_is_put_in_line(c, events.drop_last(), config);
        assert((c.queue + events.drop_last().map_values(
            |e: JudgeEvent| strength_of(e, config),
        )).push(strength_of(events.last(), config)) =~= c.queue + strengths);
    }
}

/// A judgement is of the kind of its name, but bad and missed are one kind; a note that was held is
/// perfect or good.
pub proof fn law_kinds(result: Result<Judgement, bool>)
    ensures
        kind_of(Judgement::Perfect) == DglabKind::Perfect,
        kind_of(Judgement::Good) == DglabKind::Good,
        kind_of(Judgement::Bad) == DglabKind::BadMiss,
        kind_of(Judgement::Miss) == DglabKind::BadMiss,
        kind_of_result(result) == (match result {
            Ok(Judgement::Perfect) | Err(true) => DglabKind::Perfect,
            Ok(Judgement::Good) | Err(false) => DglabKind::Good,
            Ok(Judgement::Bad) | Ok(Judgement::Miss) => DglabKind::BadMiss,
        }),
{
}

/// The setting for a report: the text in the one field that is meant for it.
pub open spec fn setting(result: Result<Judgement, bool>, config: Config) -> Seq<char> {
    match result {
        Ok(Judgement::Perfect) | Err(true) => config.dglab_perfect_power@,
        Ok(Judgement::Good) | Err(false) => config.dglab_good_power@,
        Ok(Judgement::Bad) | Ok(Judgement::Miss) => config.dglab_badmiss_power@,
    }
}

/// A number `r` is `v` where `v` is from 0 to 200, else the end of that range that is nearer.
pub open spec fn brought_into_range(v: int, r: int) -> bool {
    &&& 0 <= r <= 200
    &&& 0 <= v <= 200 ==> r == v
    &&& v < 0 ==> r == 0
    &&& v > 200 ==> r == 200
}

/// A report calls for the number that its own setting writes, brought into the range from 0 to 200,
/// whatever the other settings hold.
pub proof fn law_report_calls_for_its_setting(
    event: JudgeEvent,
    config: Config,
    a: Seq<char>,
    t: Seq<char>,
    b: Seq<char>,
    v: int,
)
    requires
        setting(event.result, config) == a + t + b,
        blank(a),
        blank(b),
        writes_signed(t, v),
        -0x8000_0000 <= v <= 0x7fff_ffff,
    ensures
        brought_into_range(v, strength_of(event, config) as int),
        brought_into_range(v, configured_strength(a + t + b) as int),
{
    lemma_number_is_bare(t, v);
    law_trimming(a, t, b);
    law_integer_is_unique(t, v);
}

proof fn lemma_number_is_bare(t: Seq<char>, v: int)
    requires
        writes_signed(t, v),
    ensures
        bare(t),
{
    let r = t.skip(1);
    if crate::laws::text::numeral(t, v) {
        assert(0 <= digit(t[0]) <= 9);
        assert(0 <= digit(t[t.len() - 1]) <= 9);
    } else {
        assert(0 <= digit(r[r.len() - 1]) <= 9);
        assert(r[r.len() - 1] == t[t.len() - 1]);
    }
}

/// A report whose own setting writes no number calls for 0, whatever the other settings hold.
pub proof fn law_report_without_setting_calls_for_nothing(
    event: JudgeEvent,
    config: Config,
    a: Seq<char>,
    t: Seq<char>,
    b: Seq<char>,
)
    requires
        setting(event.result, config) == a + t + b,
        blank(a),
        blank(b),
        bare(t),
        forall|v: int| -0x8000_0000 <= v <= 0x7fff_ffff ==> !#[trigger] writes_signed(t, v),
    ensures
        strength_of(event, config) == 0,
        configured_strength(a + t + b) == 0,
{
    law_trimming(a, t, b);
    law_integer_is_read(t);
}

/// Two sets of settings with the same text for a report call for the same strength.
pub proof fn law_other_settings_do_not_matter(
    event: JudgeEvent,
    other: JudgeEvent,
    first: Config,
    second: Config,
)
    requires
        setting(event.result, first) == setting(other.result, second),
    ensures
        strength_of(event, first) == strength_of(other, second),
{
}

/// Where nothing was reported, nothing happens; a single report sets the strength that it calls for
/// where the transport is connected, and is dropped where it is not.
pub proof fn law_one_report<T: DglabTransport>(state: T::State, event: JudgeEvent, config: Config)
    ensures
        pumped::<T>(state, Seq::empty(), config) == state,
        T::is_connected(state) ==> pumped::<T>(state, seq![event], config) == T::with_strength(
            state,
            strength_of(event, config),
        ),
        !T::is_connected(state) ==> pumped::<T>(state, seq![event], config) == state,
{
    assert(seq![event].drop_last() =~= Seq::<JudgeEvent>::empty());
    reveal_with_fuel(pumped, 3);
}

/// Over a connected server, a report whose setting writes a number is sent to the connection of the
/// paired APP as two messages, one for each channel, which set that number, brought into the range
/// from 0 to 200 and in plain digits.
pub proof fn law_report_sets_the_device(
    s: ServerView,
    event: JudgeEvent,
    config: Config,
    a: Seq<char>,
    t: Seq<char>,
    b: Seq<char>,
    v: int,
    n: int,
    d: Seq<char>,
)
    requires
        s.target_id.len() > 0,
        !s.stopping,
        s.conns.contains_key(s.paired_conn),
        setting(event.result, config) == a + t + b,
        blank(a),
        blank(b),
        writes_signed(t, v),
        -0x8000_0000 <= v <= 0x7fff_ffff,
        brought_into_range(v, n),
        plain(d, n),
    ensures
        ({
            let after = pumped::<DglabServer>(s, seq![event], config);
            &&& after.conns.contains_key(s.paired_conn)
            &&& after.conns[s.paired_conn].outbox == s.conns[s.paired_conn].outbox.push(
                FrameView::Named {
                    kind: FrameKind::Msg,
                    client_id: s.client_id,
                    target_id: s.target_id,
                    message: "strength-1+2+"@ + d,
                },
            ).push(
                FrameView::Named {
                    kind: FrameKind::Msg,
                    client_id: s.client_id,
                    target_id: s.target_id,
                    message: "strength-2+2+"@ + d,
                },
            )
        }),
{
    law_report_calls_for_its_setting(event, config, a, t, b, v);
    law_one_report::<DglabServer>(s, event, config);
    crate::laws::server::law_strength_is_spelled_out(s, strength_of(event, config), d);
    crate::laws::server::law_strength_is_queued(s, strength_of(event, config), d);
}

/// Over a connected client with room in its line, a report whose setting writes a number puts that
/// number, brought into the range from 0 to 200, last in line.
pub proof fn law_report_is_put_in_line(
    c: ClientView,
    event: JudgeEvent,
    config: Config,
    a: Seq<char>,
    t: Seq<char>,
    b: Seq<char>,
    v: int,
)
    requires
        c.connected,
        c.queue.len() < 64,
        setting(event.result, config) == a + t + b,
        blank(a),
        blank(b),
        writes_signed(t, v),
        -0x8000_0000 <= v <= 0x7fff_ffff,
    ensures
        ({
            let after = pumped::<WsTransport>(c, seq![event], config);
            &&& after.queue.len() == c.queue.len() + 1
            &&& after.queue.drop_last() == c.queue
            &&& brought_into_range(v, after.queue.last() as int)
            &&& after == (ClientView { queue: after.queue, ..c })
        }),
{
    law_report_calls_for_its_setting(event, config, a, t, b, v);
    law_one_report::<WsTransport>(c, event, config);
    let after = pumped::<WsTransport>(c, seq![event], config);
    assert(after.queue.drop_last() =~= c.queue);
}

/// A transport of either sort does what the server or the client in it does.
pub proof fn law_transport_is_what_is_in_it<S: DglabTransport, C: DglabTransport>(
    s: S,
    c: C,
    x: S::State,
    y: C::State,
    strength: u8,
)
    ensures
        Transport::<S, C>::Server(s).state() == TransportState::<S::State, C::State>::Server(
            s.state(),
        ),
        Transport::<S, C>::Client(c).state() == TransportState::<S::State, C::State>::Client(
            c.state(),
        ),
        Transport::<S, C>::is_connected(TransportState::Server(x)) == S::is_connected(x),
        Transport::<S, C>::is_connected(TransportState::Client(y)) == C::is_connected(y),
        Transport::<S, C>::with_strength(TransportState::Server(x), strength)
            == TransportState::<S::State, C::State>::Server(S::with_strength(x, strength)),
        Transport::<S, C>::with_strength(TransportState::Client(y), strength)
            == TransportState::<S::State, C::State>::Client(C::with_strength(y, strength)),
        Transport::<S, C>::disconnected(TransportState::Server(x)) == TransportState::<
            S::State,
            C::State,
        >::Server(S::disconnected(x)),
        Transport::<S, C>::disconnected(TransportState::Client(y)) == TransportState::<
            S::State,
            C::State,
        >::Client(C::disconnected(y)),
{
}

}
