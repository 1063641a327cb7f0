//! A session as a whole: the artifacts that a run of recording calls leaves
//! behind, and what holds of their numbers and files.
//!
//! A session is stated over numbers without bound. The recording calls
//! follow it as long as the counter has numbers left, which
//! [`lemma_session_within_numbers`] turns into a bound on the length of the
//! session.

use vstd::prelude::*;
use crate::recorder::{
    artifact_file, artifact_of, configured, disabled, file_suffix, is_unset, record_step,
    ArtifactView, Direction, RecorderConfig, RecorderInitError, ID_WIDTH,
};
use crate::text::{
    is_digit, lemma_zero_padded_digits, lemma_zero_padded_injective, zero_padded,
};

verus! {

/// The number that the counter hands out next after the recording calls
/// `events`, made in this order on a counter whose next number was `start`.
pub open spec fn counter_after(
    config: RecorderConfig,
    start: nat,
    events: Seq<(Direction, Seq<char>)>,
) -> nat
    decreases events.len(),
{
    if events.len() == 0 {
        start
    } else {
        record_step(
            config,
            counter_after(config, start, events.drop_last()),
            events.last().0,
            events.last().1,
        ).1
    }
}

/// The artifacts that the recording calls `events` leave behind, in the
/// order of the calls. Each event is a direction and a message; requests and
/// responses may follow each other in any order.
pub open spec fn session(
    config: RecorderConfig,
    start: nat,
    events: Seq<(Direction, Seq<char>)>,
) -> Seq<ArtifactView>
    decreases events.len(),
{
    if events.len() == 0 {
        Seq::empty()
    } else {
        let before = session(config, start, events.drop_last());
        let step = record_step(
            config,
            counter_after(config, start, events.drop_last()),
            events.last().0,
            events.last().1,
        );
        match step.0 {
            Some(artifact) => before.push(artifact),
            None => before,
        }
    }
}

/// A disabled recorder leaves nothing behind, however many messages pass,
/// and never draws a number.
pub proof fn lemma_disabled_records_nothing(
    config: RecorderConfig,
    start: nat,
    events: Seq<(Direction, Seq<char>)>,
)
    requires
        !config.enabled,
    ensures
        session(config, start, events) == Seq::<ArtifactView>::empty(),
        counter_after(config, start, events) == start,
    decreases events.len(),
{
    if events.len() > 0 {
        lemma_disabled_records_nothing(config, start, events.drop_last());
    }
}

/// With the recording directory unset, nothing is ever recorded: whatever
/// the clock says, the recorder is set up without fail, and no recording
/// call of the session leaves an artifact.
pub proof fn lemma_unset_records_nothing(
    value: Option<String>,
    stamp: Option<Seq<char>>,
    start: nat,
    events: Seq<(Direction, Seq<char>)>,
)
    requires
        is_unset(value),
    ensures
        configured(value, stamp) == Ok::<RecorderConfig, RecorderInitError>(disabled()),
        session(disabled(), start, events) == Seq::<ArtifactView>::empty(),
        counter_after(disabled(), start, events) == start,
{
    lemma_disabled_records_nothing(disabled(), start, events);
}

/// An enabled recorder leaves one artifact for each call, and the `i`-th
/// call gets the number `start + i`, whatever its direction.
pub proof fn lemma_session_follows_counter(
    config: RecorderConfig,
    start: nat,
    events: Seq<(Direction, Seq<char>)>,
)
    requires
        config.enabled,
    ensures
        session(config, start, events).len() == events.len(),
        counter_after(config, start, events) == start + events.len(),
        forall|i: int|
            0 <= i < events.len() ==> #[trigger] session(config, start, events)[i] == artifact_of(
                config,
                start + i as nat,
                events[i].0,
                events[i].1,
            ),
    decreases events.len(),
{
    if events.len() > 0 {
        let earlier = events.drop_last();
        lemma_session_follows_counter(config, start, earlier);
        assert forall|i: int| 0 <= i < events.len() implies #[trigger] session(
            config,
            start,
            events,
        )[i] == artifact_of(config, start + i as nat, events[i].0, events[i].1) by {
            if i < earlier.len() {
                assert(session(config, start, events)[i] == session(config, start, earlier)[i]);
                assert(earlier[i] == events[i]);
            }
        }
    }
}

/// Requests and responses share one numbering: the artifacts of a session
/// carry the numbers `start`, `start + 1`, ... in the order of the calls,
/// one number for each call, with no number left out and none used twice.
/// So a call made after another has the larger number, and a session that
/// starts a fresh count, at zero, numbers its artifacts by their position.
pub proof fn lemma_shared_sequencing(
    config: RecorderConfig,
    start: nat,
    events: Seq<(Direction, Seq<char>)>,
)
    requires
        config.enabled,
    ensures
        session(config, start, events).len() == events.len(),
        forall|i: int|
            0 <= i < events.len() ==> (#[trigger] session(config, start, events)[i]).sequence_id
                == start + i,
        forall|i: int, j: int|
            0 <= i < j < events.len() ==> (#[trigger] session(config, start, events)[i]).sequence_id
                < (#[trigger] session(config, start, events)[j]).sequence_id,
{
    lemma_session_follows_counter(config, start, events);
}

/// A session of an enabled recorder that ends at or below the largest
/// `usize` finds a number left at each of its calls: before the `i`-th call
/// the counter stands at `start + i`, below the largest `usize`.
pub proof fn lemma_session_within_numbers(
    config: RecorderConfig,
    start: nat,
    events: Seq<(Direction, Seq<char>)>,
    i: int,
)
    requires
        config.enabled,
        start + events.len() <= usize::MAX,
        0 <= i < events.len(),
    ensures
        counter_after(config, start, events.take(i)) == start + i,
        counter_after(config, start, events.take(i)) < usize::MAX,
{
    lemma_session_follows_counter(config, start, events.take(i));
}

/// Two sessions that write into one directory, each with a counter of its
/// own that starts at zero, give their `i`-th messages the same number; where
/// the directions agree too, they name the same file. Nothing in the
/// recorder keeps the second session from overwriting the first: callers
/// that start two sessions within one minute under one root have to keep
/// them apart themselves.
pub proof fn lemma_fresh_sessions_share_files(
    config: RecorderConfig,
    first: Seq<(Direction, Seq<char>)>,
    second: Seq<(Direction, Seq<char>)>,
    i: int,
)
    requires
        config.enabled,
        0 <= i < first.len(),
        0 <= i < second.len(),
        first[i].0 == second[i].0,
    ensures
        session(config, 0, first)[i].sequence_id == session(config, 0, second)[i].sequence_id,
        session(config, 0, first)[i].file == session(config, 0, second)[i].file,
{
    lemma_session_follows_counter(config, 0, first);
    lemma_session_follows_counter(config, 0, second);
}

/// In one directory a file name belongs to one number and one direction:
/// two artifacts with the same file have the same number and the same
/// direction.
pub proof fn lemma_file_names_tell_apart(
    root: Seq<char>,
    a: nat,
    toward_a: Direction,
    b: nat,
    toward_b: Direction,
)
    requires
        artifact_file(root, a, toward_a) == artifact_file(root, b, toward_b),
    ensures
        a == b,
        toward_a == toward_b,
{
    reveal_strlit("-request.msg");
    reveal_strlit("-response.msg");
    let number_a = zero_padded(a, ID_WIDTH as nat);
    let number_b = zero_padded(b, ID_WIDTH as nat);
    let name_a = number_a + file_suffix(toward_a);
    let name_b = number_b + file_suffix(toward_b);
    let file_a = artifact_file(root, a, toward_a);
    let file_b = artifact_file(root, b, toward_b);
    let from = root.len() + 1;
    assert(name_a =~= file_a.subrange(from as int, file_a.len() as int));
    assert(name_b =~= file_b.subrange(from as int, file_b.len() as int));
    lemma_zero_padded_digits(a, ID_WIDTH as nat);
    lemma_zero_padded_digits(b, ID_WIDTH as nat);
    if toward_a != toward_b {
        // The longer number ends in a digit where the other name has its hyphen.
        if number_a.len() > number_b.len() {
            let at = number_b.len() as int;
            assert(name_a[at] == number_a[at]);
            assert(name_b[at] == file_suffix(toward_b)[0]);
            assert(is_digit(number_a[at]));
        } else {
            let at = number_a.len() as int;
            assert(number_b.len() > number_a.len());
            assert(name_b[at] == number_b[at]);
            assert(name_a[at] == file_suffix(toward_a)[0]);
            assert(is_digit(number_b[at]));
        }
        assert(false);
    }
    assert(number_a =~= name_a.subrange(0, number_a.len() as int));
    assert(number_b =~= name_b.subrange(0, number_b.len() as int));
    lemma_zero_padded_injective(a, b, ID_WIDTH as nat);
}

/// No two artifacts of a session share a file: a later call never
/// overwrites what an earlier one wrote.
pub proof fn lemma_session_files_distinct(
    config: RecorderConfig,
    start: nat,
    events: Seq<(Direction, Seq<char>)>,
    i: int,
    j: int,
)
    requires
        config.enabled,
        0 <= i < j < events.len(),
    ensures
        session(config, start, events)[i].file != session(config, start, events)[j].file,
{
    lemma_session_follows_counter(config, start, events);
    if session(config, start, events)[i].file == session(config, start, events)[j].file {
        lemma_file_names_tell_apart(
            config.storage_root,
            start + i as nat,
            events[i].0,
            start + j as nat,
            events[j].0,
        );
    }
}

} // verus!
