//! The transport messages and the 24 pulses-per-quarter-note clock that a
//! unit is fed before each audio block.

use vstd::prelude::*;

verus! {

/// A MIDI real-time message.
#[derive(Debug, Clone, Copy, PartialEq, Eq, Structural)]
pub enum MidiSyncMsg {
    Start,
    Stop,
    Clock,
}

/// A message for the unit, with the sample of the coming block at which it
/// is due: 0 is the block's first sample.
#[derive(Debug, Clone, Copy, PartialEq, Eq, Structural)]
pub struct SyncEvent {
    pub offset: usize,
    pub msg: MidiSyncMsg,
}

/// What the clock of one block is computed from.
#[derive(Debug, Clone, Copy, PartialEq, Eq, Structural)]
pub struct ClockData {
    /// The length of a pulse in samples: a twenty-fourth of a beat at the
    /// host's tempo.
    pub samples_per_pulse: i64,
    /// The length of the coming block in samples.
    pub next_buffer_size: usize,
    /// Where in the track the coming block starts, in samples.
    pub next_buffer_sample_position: i64,
}

/// The remainder of `position` by `period`, with the sign of `position`.
pub open spec fn signed_remainder(position: int, period: int) -> int {
    if position >= 0 {
        position % period
    } else {
        -((-position) % period)
    }
}

/// The offset of the first pulse that is due at or after the start of a
/// block: 0 where the block starts on a pulse, else what is left of the
/// period.
pub open spec fn first_pulse(period: int, position: int) -> int {
    let rem = signed_remainder(position, period);
    if rem == 0 {
        0
    } else {
        period - rem
    }
}

/// The offsets `from`, `from + period`, ... for as long as they lie before
/// `block_size`.
pub open spec fn pulses_from(from: int, period: int, block_size: int) -> Seq<int>
    decreases
        if from < block_size {
            block_size - from
        } else {
            0
        },
{
    if period <= 0 || from >= block_size {
        Seq::empty()
    } else {
        seq![from] + pulses_from(from + period, period, block_size)
    }
}

impl ClockData {
    /// The offsets within the coming block at which a pulse is due.
    pub open spec fn pulse_offsets(self) -> Seq<int> {
        pulses_from(
            first_pulse(self.samples_per_pulse as int, self.next_buffer_sample_position as int),
            self.samples_per_pulse as int,
            self.next_buffer_size as int,
        )
    }
}

/// The clock messages due at the given offsets.
pub open spec fn clock_events(offsets: Seq<int>) -> Seq<SyncEvent> {
    Seq::new(
        offsets.len(),
        |i: int| SyncEvent { offset: offsets[i] as usize, msg: MidiSyncMsg::Clock },
    )
}

/// The message that a change of the transport calls for: `Start` when it
/// begins to play, `Stop` when it ceases to, none while it goes on as it
/// was.
pub open spec fn transition(was_playing: bool, playing: bool) -> Seq<MidiSyncMsg> {
    if playing && !was_playing {
        seq![MidiSyncMsg::Start]
    } else if !playing && was_playing {
        seq![MidiSyncMsg::Stop]
    } else {
        Seq::empty()
    }
}

/// The messages due for one block: what the change of the transport calls
/// for, at offset 0, and while playing the pulses of the clock, where the
/// host gave what the clock is computed from.
pub open spec fn sync_events(
    was_playing: bool,
    playing: bool,
    clock: Option<ClockData>,
) -> Seq<SyncEvent> {
    let change = Seq::new(
        transition(was_playing, playing).len(),
        |i: int| SyncEvent { offset: 0, msg: transition(was_playing, playing)[i] },
    );
    match clock {
        Some(data) if playing => change + clock_events(data.pulse_offsets()),
        _ => change,
    }
}

/// The `Start` and `Stop` messages that a run of blocks calls for, given
/// whether the transport played before the first of them and whether it
/// plays in each.
pub open spec fn transitions(was_playing: bool, playing: Seq<bool>) -> Seq<MidiSyncMsg>
    decreases playing.len(),
{
    if playing.len() == 0 {
        Seq::empty()
    } else {
        transitions(was_playing, playing.drop_last()) + transition(
            if playing.len() == 1 {
                was_playing
            } else {
                playing[playing.len() - 2]
            },
            playing.last(),
        )
    }
}

/// Over any run of blocks, `Start` and `Stop` take turns: the first message
/// is a `Start` where the transport did not play before and a `Stop` where
/// it did, no two messages in a row are the same, and the last one is a
/// `Start` exactly if the transport plays in the last block.
pub proof fn lemma_start_stop_alternate(was_playing: bool, playing: Seq<bool>)
    ensures
        ({
            let msgs = transitions(was_playing, playing);
            &&& forall|i: int| 0 <= i < msgs.len() ==> msgs[i] != MidiSyncMsg::Clock
            &&& forall|i: int| 0 <= i < msgs.len() - 1 ==> #[trigger] msgs[i] != msgs[i + 1]
            &&& msgs.len() > 0 ==> (msgs[0] == MidiSyncMsg::Start <==> !was_playing)
            &&& msgs.len() > 0 ==> (msgs.last() == MidiSyncMsg::Start <==> playing.last())
            &&& msgs.len() == 0 ==> forall|i: int| 0 <= i < playing.len() ==> playing[i] == was_playing
        }),
    decreases playing.len(),
{
    if playing.len() > 0 {
        let earlier = playing.drop_last();
        lemma_start_stop_alternate(was_playing, earlier);
        let before = transitions(was_playing, earlier);
        let previous = if playing.len() == 1 {
            was_playing
        } else {
            playing[playing.len() - 2]
        };
        let change = transition(previous, playing.last());
        let msgs = transitions(was_playing, playing);
        assert(msgs == before + change);
        if playing.len() > 1 {
            assert(earlier.last() == previous);
        }
        if before.len() == 0 {
            assert(previous == was_playing) by {
                if playing.len() > 1 {
                    assert(earlier[earlier.len() - 1] == was_playing);
                }
            }
        }
        assert forall|i: int| 0 <= i < msgs.len() - 1 implies #[trigger] msgs[i] != msgs[i + 1] by {
            if i + 1 < before.len() {
                assert(before[i] != before[i + 1]);
            }
        }
        if msgs.len() == 0 {
            assert forall|i: int| 0 <= i < playing.len() implies playing[i] == was_playing by {
                if i < earlier.len() {
                    assert(earlier[i] == was_playing);
                }
            }
        }
    }
}

/// The sum and the difference of two multiples of `m` are multiples of `m`.
proof fn lemma_multiples(a: int, b: int, m: int)
    requires
        m > 0,
        a % m == 0,
        b % m == 0,
    ensures
        (a + b) % m == 0,
        (a - b) % m == 0,
{
    vstd::arithmetic::div_mod::lemma_fundamental_div_mod(a, m);
    vstd::arithmetic::div_mod::lemma_fundamental_div_mod(b, m);
    let qa = a / m;
    let qb = b / m;
    assert(a + b == m * (qa + qb) + 0 && a - b == m * (qa - qb) + 0) by (nonlinear_arith)
        requires
            a == m * qa,
            b == m * qb,
    ;
    vstd::arithmetic::div_mod::lemma_mod_multiples_vanish(qa + qb, 0, m);
    vstd::arithmetic::div_mod::lemma_mod_multiples_vanish(qa - qb, 0, m);
    vstd::arithmetic::div_mod::lemma_small_mod(0, m as nat);
}

/// A multiple of `m` that is greater than `-m` is not negative, and one
/// that is greater than 0 is at least `m`.
proof fn lemma_multiple_bounds(x: int, m: int)
    requires
        m > 0,
        x % m == 0,
    ensures
        x > -m ==> x >= 0,
        x > 0 ==> x >= m,
{
    if 0 < x < m {
        vstd::arithmetic::div_mod::lemma_small_mod(x as nat, m as nat);
    }
    if -m < x < 0 {
        vstd::arithmetic::div_mod::lemma_mod_add_multiples_vanish(x, m);
        vstd::arithmetic::div_mod::lemma_small_mod((m + x) as nat, m as nat);
    }
}

/// The pulses from an offset on are that offset and then one every
/// `period` samples, all of them within the block.
pub proof fn lemma_pulses_are_spaced(from: int, period: int, block_size: int)
    requires
        period > 0,
    ensures
        ({
            let offsets = pulses_from(from, period, block_size);
            &&& offsets.len() > 0 <==> from < block_size
            &&& offsets.len() > 0 ==> offsets[0] == from
            &&& forall|i: int| 0 <= i < offsets.len() ==> from <= #[trigger] offsets[i] < block_size
            &&& forall|i: int|
                0 <= i < offsets.len() ==> (#[trigger] offsets[i] - from) % period == 0
            &&& forall|i: int|
                0 <= i < offsets.len() - 1 ==> #[trigger] offsets[i + 1] == offsets[i] + period
            &&& forall|offset: int|
                from <= offset < block_size && (offset - from) % period == 0
                    ==> offsets.contains(offset)
        }),
    decreases
        if from < block_size {
            block_size - from
        } else {
            0
        },
{
    if from < block_size {
        let offsets = pulses_from(from, period, block_size);
        let rest = pulses_from(from + period, period, block_size);
        lemma_pulses_are_spaced(from + period, period, block_size);
        assert(offsets == seq![from] + rest);
        assert forall|i: int| 0 <= i < offsets.len() implies (#[trigger] offsets[i] - from)
            % period == 0 by {
            if i == 0 {
                vstd::arithmetic::div_mod::lemma_small_mod(0, period as nat);
            } else {
                assert(offsets[i] == rest[i - 1]);
                vstd::arithmetic::div_mod::lemma_mod_add_multiples_vanish(
                    rest[i - 1] - (from + period),
                    period,
                );
            }
        }
        assert forall|i: int| 0 <= i < offsets.len() implies from <= #[trigger] offsets[i]
            < block_size by {
            if i > 0 {
                assert(offsets[i] == rest[i - 1]);
            }
        }
        assert forall|i: int| 0 <= i < offsets.len() - 1 implies #[trigger] offsets[i + 1]
            == offsets[i] + period by {
            assert(offsets[i + 1] == rest[i]);
            if i > 0 {
                assert(offsets[i] == rest[i - 1]);
                assert(rest[(i - 1) + 1] == rest[i - 1] + period);
            } else {
                assert(rest[0] == from + period);
            }
        }
        assert forall|offset: int|
            from <= offset < block_size && (offset - from) % period == 0 implies offsets.contains(
            offset,
        ) by {
            if offset == from {
                assert(offsets[0] == offset);
            } else {
                lemma_multiple_bounds(offset - from, period);
                vstd::arithmetic::div_mod::lemma_mod_sub_multiples_vanish(offset - from, period);
                assert(rest.contains(offset));
                let j = choose|j: int| 0 <= j < rest.len() && rest[j] == offset;
                assert(offsets[j + 1] == offset);
            }
        }
    }
}

/// From a position that is not negative, the pulses of a block fall on the
/// samples of the track whose position is a multiple of the period, and on
/// each of those within the block: so the clock keeps its phase from one
/// block to the next.
pub proof fn lemma_pulses_keep_phase(data: ClockData, offset: int)
    requires
        data.samples_per_pulse > 0,
        data.next_buffer_sample_position >= 0,
    ensures
        data.pulse_offsets().contains(offset) <==> 0 <= offset < data.next_buffer_size && (
        data.next_buffer_sample_position + offset) % (data.samples_per_pulse as int) == 0,
{
    let period = data.samples_per_pulse as int;
    let position = data.next_buffer_sample_position as int;
    let block_size = data.next_buffer_size as int;
    let first = first_pulse(period, position);
    let offsets = data.pulse_offsets();
    vstd::arithmetic::div_mod::lemma_fundamental_div_mod(position, period);
    vstd::arithmetic::div_mod::lemma_mod_pos_bound(position, period);
    assert((position + first) % period == 0) by {
        if position % period != 0 {
            vstd::arithmetic::div_mod::lemma_mod_multiples_vanish(position / period + 1, 0, period);
            assert(position + first == period * (position / period + 1) + 0) by (nonlinear_arith)
                requires
                    position == period * (position / period) + position % period,
                    first == period - position % period,
            ;
            vstd::arithmetic::div_mod::lemma_small_mod(0, period as nat);
        }
    }
    lemma_pulses_are_spaced(first, period, block_size);
    if offsets.contains(offset) {
        let i = choose|i: int| 0 <= i < offsets.len() && offsets[i] == offset;
        assert((offsets[i] - first) % period == 0);
        lemma_multiples(position + first, offset - first, period);
    }
    if 0 <= offset < block_size && (position + offset) % period == 0 {
        lemma_multiples(position + offset, position + first, period);
        lemma_multiple_bounds(offset - first, period);
    }
}

/// Whether the transport was playing at the end of the previous block.
#[derive(Debug, Clone, Copy, PartialEq, Eq, Structural)]
pub struct Transport {
    pub already_playing: bool,
}

/// The offset of the first pulse of a block.
fn first_pulse_offset(period: i64, position: i64) -> (first: u64)
    requires
        period > 0,
    ensures
        first == first_pulse(period as int, position as int),
{
    let p: u64 = period as u64;
    if position >= 0 {
        let rem: u64 = (position as u64) % p;
        if rem == 0 {
            0
        } else {
            p - rem
        }
    } else {
        // -position may not fit the signed type: go by -(position + 1).
        let below: u64 = (-(position + 1)) as u64;
        let rem: u64 = if below % p == p - 1 {
            0
        } else {
            below % p + 1
        };
        assert(rem == (-position) % (period as int)) by {
            lemma_remainder_of_successor(below as int, period as int);
        }
        if rem == 0 {
            0
        } else {
            p + rem
        }
    }
}

/// The remainder of `n + 1` from that of `n`.
proof fn lemma_remainder_of_successor(n: int, d: int)
    requires
        n >= 0,
        d > 0,
    ensures
        (n + 1) % d == if n % d == d - 1 {
            0
        } else {
            n % d + 1
        },
{
    vstd::arithmetic::div_mod::lemma_fundamental_div_mod(n, d);
    vstd::arithmetic::div_mod::lemma_mod_pos_bound(n, d);
    let q = n / d;
    let r = n % d;
    if r == d - 1 {
        assert(n + 1 == (q + 1) * d + 0) by (nonlinear_arith)
            requires
                n == d * q + r,
                r == d - 1,
        ;
        vstd::arithmetic::div_mod::lemma_fundamental_div_mod_converse(n + 1, d, q + 1, 0);
    } else {
        assert(n + 1 == q * d + (r + 1)) by (nonlinear_arith)
            requires
                n == d * q + r,
        ;
        vstd::arithmetic::div_mod::lemma_fundamental_div_mod_converse(n + 1, d, q, r + 1);
    }
}

impl Transport {
    /// A transport that has not played yet.
    pub fn new() -> (transport: Transport)
        ensures
            !transport.already_playing,
    {
        Transport { already_playing: false }
    }

    /// Takes the transport's state for the coming block and returns the
    /// messages to send to the unit before the block is computed.
    pub fn handle_midi_sync(&mut self, playing: bool, opt_clock_data: &Option<ClockData>) -> (events:
        Vec<SyncEvent>)
        requires
            playing ==> match *opt_clock_data {
                Some(data) => data.samples_per_pulse > 0,
                None => true,
            },
        ensures
            final(self).already_playing == playing,
            events@ == sync_events(old(self).already_playing, playing, *opt_clock_data),
    {
        let mut events: Vec<SyncEvent> = Vec::new();
        let ghost change = Seq::new(
            transition(self.already_playing, playing).len(),
            |i: int| SyncEvent { offset: 0, msg: transition(old(self).already_playing, playing)[i] },
        );
        if playing {
            if !self.already_playing {
                events.push(SyncEvent { offset: 0, msg: MidiSyncMsg::Start });
                self.already_playing = true;
            }
            assert(events@ =~= change);
            if let Some(data) = opt_clock_data {
                let period: u64 = data.samples_per_pulse as u64;
                let block: u64 = data.next_buffer_size as u64;
                let mut next: u64 = first_pulse_offset(
                    data.samples_per_pulse,
                    data.next_buffer_sample_position,
                );
                let ghost first = next as int;
                let ghost offsets: Seq<int> = Seq::empty();
                let mut done = false;
                while !done
                    invariant
                        period == data.samples_per_pulse,
                        period > 0,
                        block == data.next_buffer_size,
                        data.pulse_offsets() == offsets + if done {
                            Seq::<int>::empty()
                        } else {
                            pulses_from(next as int, period as int, block as int)
                        },
                        events@ == change + clock_events(offsets),
                    decreases
                        if done {
                            0int
                        } else {
                            1 + if next < block {
                                block - next
                            } else {
                                0
                            }
                        },
                {
                    if next < block {
                        events.push(SyncEvent { offset: next as usize, msg: MidiSyncMsg::Clock });
                        proof {
                            let grown = offsets.push(next as int);
                            assert(clock_events(grown) =~= clock_events(offsets).push(
                                SyncEvent { offset: next as usize, msg: MidiSyncMsg::Clock },
                            ));
                            assert(events@ =~= change + clock_events(grown));
                            assert(offsets + (seq![next as int] + pulses_from(
                                next + period,
                                period as int,
                                block as int,
                            )) =~= grown + pulses_from(next + period, period as int, block as int));
                            offsets = grown;
                        }
                        if block - next > period {
                            next = next + period;
                        } else {
                            assert(pulses_from(next + period, period as int, block as int)
                                =~= Seq::<int>::empty());
                            done = true;
                        }
                    } else {
                        done = true;
                    }
                }
                assert(offsets + Seq::<int>::empty() =~= offsets);
            }
        } else {
            if self.already_playing {
                events.push(SyncEvent { offset: 0, msg: MidiSyncMsg::Stop });
                self.already_playing = false;
            }
            assert(events@ =~= change);
        }
        events
    }
}

} // verus!
