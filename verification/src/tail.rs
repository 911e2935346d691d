//! Tailing log reader: incrementally consumes a monotonically growing
//! append-only log, tracking an offset so repeated polls only return newly
//! appended records. Only complete, newline-terminated lines are consumed;
//! a partial trailing line neither advances the offset nor is returned.
//! Each complete line is decoded and routed by its tag — telemetry, command
//! result, or command — and lines that decode as none of the three are
//! skipped without stopping the poll.

use vstd::prelude::*;

use crate::codec::parse_command_line;
use crate::codec::parse_command_spec;
use crate::codec::parse_result_line;
use crate::codec::parse_result_spec;
use crate::commands::CommandEnvelope;
use crate::commands::CommandResultEvent;
use crate::commands::EnvelopeV;
use crate::commands::ResultEventV;
use crate::fields::split_on;
use crate::telemetry::FrameV;
use crate::telemetry::TelemetryFrame;
use crate::telemetry_codec::parse_telemetry_line;
use crate::telemetry_codec::parse_telemetry_spec;

verus! {

/// Length of the longest prefix of `s` made of complete, newline-terminated
/// lines: everything up to and including the last newline.
pub open spec fn complete_len(s: Seq<char>) -> int
    decreases s.len(),
{
    if s.len() == 0 {
        0
    } else if s.last() == '\n' {
        s.len() as int
    } else {
        complete_len(s.drop_last())
    }
}

/// The complete lines of `s`, in order, terminators stripped.
pub open spec fn complete_lines(s: Seq<char>) -> Seq<Seq<char>> {
    let c = complete_len(s);
    if c == 0 {
        Seq::<Seq<char>>::empty()
    } else {
        split_on(s.take(c - 1), '\n')
    }
}

/// The telemetry frames the lines denote, in order.
pub open spec fn telemetry_of_lines(ls: Seq<Seq<char>>) -> Seq<FrameV>
    decreases ls.len(),
{
    if ls.len() == 0 {
        Seq::<FrameV>::empty()
    } else {
        let rest = telemetry_of_lines(ls.drop_last());
        if parse_telemetry_spec(ls.last()) is Some {
            rest.push(parse_telemetry_spec(ls.last())->Some_0)
        } else {
            rest
        }
    }
}

/// The command result events the lines denote, in order. A line that also
/// reads as telemetry is routed to telemetry, never here.
pub open spec fn results_of_lines(ls: Seq<Seq<char>>) -> Seq<ResultEventV>
    decreases ls.len(),
{
    if ls.len() == 0 {
        Seq::<ResultEventV>::empty()
    } else {
        let rest = results_of_lines(ls.drop_last());
        if parse_telemetry_spec(ls.last()) is None && parse_result_spec(ls.last()) is Some {
            rest.push(parse_result_spec(ls.last())->Some_0)
        } else {
            rest
        }
    }
}

/// The command envelopes the lines denote, in order. A line that reads as
/// telemetry or as a result is routed there, never here.
pub open spec fn commands_of_lines(ls: Seq<Seq<char>>) -> Seq<EnvelopeV>
    decreases ls.len(),
{
    if ls.len() == 0 {
        Seq::<EnvelopeV>::empty()
    } else {
        let rest = commands_of_lines(ls.drop_last());
        if parse_telemetry_spec(ls.last()) is None && parse_result_spec(ls.last()) is None
            && parse_command_spec(ls.last()) is Some {
            rest.push(parse_command_spec(ls.last())->Some_0)
        } else {
            rest
        }
    }
}

/// Views of a buffered frame vector.
pub open spec fn frame_views(v: Seq<TelemetryFrame>) -> Seq<FrameV> {
    v.map_values(|f: TelemetryFrame| f@)
}

/// Views of a buffered result vector.
pub open spec fn result_views(v: Seq<CommandResultEvent>) -> Seq<ResultEventV> {
    v.map_values(|e: CommandResultEvent| e@)
}

/// Views of a buffered command vector.
pub open spec fn command_views(v: Seq<CommandEnvelope>) -> Seq<EnvelopeV> {
    v.map_values(|e: CommandEnvelope| e@)
}

/// The complete region is a prefix.
pub proof fn lemma_complete_len_bounds(s: Seq<char>)
    ensures
        0 <= complete_len(s) <= s.len(),
    decreases s.len(),
{
    if s.len() > 0 && s.last() != '\n' {
        lemma_complete_len_bounds(s.drop_last());
    }
}

/// Text without a newline holds no complete line.
pub proof fn lemma_complete_len_none(s: Seq<char>)
    requires
        forall|i: int| 0 <= i < s.len() ==> s[i] != '\n',
    ensures
        complete_len(s) == 0,
    decreases s.len(),
{
    if s.len() > 0 {
        lemma_complete_len_none(s.drop_last());
    }
}

/// A newline at `k` splits the complete region around it.
pub proof fn lemma_complete_len_skip(s: Seq<char>, k: int)
    requires
        0 <= k < s.len(),
        s[k] == '\n',
    ensures
        complete_len(s) == k + 1 + complete_len(s.skip(k + 1)),
    decreases s.len(),
{
    if s.last() == '\n' {
        if k == s.len() - 1 {
            assert(s.skip(k + 1) =~= Seq::<char>::empty());
        } else {
            let tail = s.skip(k + 1);
            assert(tail.last() == '\n');
            assert(complete_len(tail) == tail.len());
        }
    } else {
        assert(k < s.len() - 1);
        lemma_complete_len_skip(s.drop_last(), k);
        assert(s.drop_last().skip(k + 1) =~= s.skip(k + 1).drop_last());
        assert(s.skip(k + 1).last() == s.last());
    }
}

/// The first line before a newline at `k` (none earlier) stands first in
/// the complete lines, ahead of those of the remainder.
pub proof fn lemma_complete_lines_skip(s: Seq<char>, k: int)
    requires
        0 <= k < s.len(),
        s[k] == '\n',
        forall|i: int| 0 <= i < k ==> s[i] != '\n',
    ensures
        complete_lines(s) == seq![s.take(k)] + complete_lines(s.skip(k + 1)),
{
    lemma_complete_len_skip(s, k);
    let rest = s.skip(k + 1);
    let c = complete_len(rest);
    lemma_complete_len_bounds(rest);
    if c == 0 {
        assert(complete_len(s) == k + 1);
        assert(s.take(k + 1 - 1) =~= s.take(k));
        crate::fields::lemma_split_single(s.take(k), '\n');
        assert(complete_lines(s) =~~= seq![s.take(k)] + complete_lines(rest));
    } else {
        let region = s.take(k + 1 + c - 1);
        assert(region =~= s.take(k) + seq!['\n'] + rest.take(c - 1));
        crate::fields::lemma_split_append(s.take(k), rest.take(c - 1), '\n');
        crate::fields::lemma_split_single(s.take(k), '\n');
        assert(complete_lines(s) =~~= seq![s.take(k)] + complete_lines(rest));
    }
}

/// Routing distributes over putting one line in front.
pub proof fn lemma_route_prepend(l: Seq<char>, ls: Seq<Seq<char>>)
    ensures
        telemetry_of_lines(seq![l] + ls) == telemetry_of_lines(seq![l]) + telemetry_of_lines(ls),
        results_of_lines(seq![l] + ls) == results_of_lines(seq![l]) + results_of_lines(ls),
        commands_of_lines(seq![l] + ls) == commands_of_lines(seq![l]) + commands_of_lines(ls),
    decreases ls.len(),
{
    if ls.len() == 0 {
        assert(seq![l] + ls =~~= seq![l]);
        assert(telemetry_of_lines(seq![l] + ls) =~~= telemetry_of_lines(seq![l])
            + telemetry_of_lines(ls));
        assert(results_of_lines(seq![l] + ls) =~~= results_of_lines(seq![l]) + results_of_lines(
            ls,
        ));
        assert(commands_of_lines(seq![l] + ls) =~~= commands_of_lines(seq![l]) + commands_of_lines(
            ls,
        ));
    } else {
        lemma_route_prepend(l, ls.drop_last());
        assert((seq![l] + ls).drop_last() =~~= seq![l] + ls.drop_last());
        assert((seq![l] + ls).last() == ls.last());
        assert(telemetry_of_lines(seq![l] + ls) =~~= telemetry_of_lines(seq![l])
            + telemetry_of_lines(ls));
        assert(results_of_lines(seq![l] + ls) =~~= results_of_lines(seq![l]) + results_of_lines(
            ls,
        ));
        assert(commands_of_lines(seq![l] + ls) =~~= commands_of_lines(seq![l]) + commands_of_lines(
            ls,
        ));
    }
}

/// Tails one append-only log. The offset is a character position into the
/// log text, owned by this reader alone; it starts at zero, so a fresh
/// reader re-reads the log from the beginning.
pub struct TailReader {
    offset: usize,
    pending_telemetry: Vec<TelemetryFrame>,
    pending_results: Vec<CommandResultEvent>,
    pending_commands: Vec<CommandEnvelope>,
}

impl TailReader {
    /// How far into the log this reader has consumed, in characters.
    pub closed spec fn spec_offset(&self) -> int {
        self.offset as int
    }

    /// The buffered telemetry frames, oldest first.
    pub closed spec fn spec_telemetry(&self) -> Seq<FrameV> {
        frame_views(self.pending_telemetry@)
    }

    /// The buffered command result events, oldest first.
    pub closed spec fn spec_results(&self) -> Seq<ResultEventV> {
        result_views(self.pending_results@)
    }

    /// The buffered command envelopes, oldest first.
    pub closed spec fn spec_commands(&self) -> Seq<EnvelopeV> {
        command_views(self.pending_commands@)
    }

    /// A fresh reader: offset zero, nothing buffered.
    pub fn new() -> (r: TailReader)
        ensures
            r.spec_offset() == 0,
            r.spec_telemetry() == Seq::<FrameV>::empty(),
            r.spec_results() == Seq::<ResultEventV>::empty(),
            r.spec_commands() == Seq::<EnvelopeV>::empty(),
    {
        let r = TailReader {
            offset: 0,
            pending_telemetry: Vec::new(),
            pending_results: Vec::new(),
            pending_commands: Vec::new(),
        };
        proof {
            assert(r.spec_telemetry() =~= Seq::<FrameV>::empty());
            assert(r.spec_results() =~= Seq::<ResultEventV>::empty());
            assert(r.spec_commands() =~= Seq::<EnvelopeV>::empty());
        }
        r
    }

    /// Consumes the complete lines appended to `content` beyond the current
    /// offset, decoding and routing each, and advances the offset past
    /// exactly what was consumed: a partial trailing line stays for a later
    /// poll, and a shrunken log (offset beyond the text) changes nothing.
    #[verifier::loop_isolation(false)]
    pub fn ingest(&mut self, content: &str)
        ensures
            old(self).spec_offset() > content@.len() ==> *final(self) == *old(self),
            old(self).spec_offset() <= content@.len() ==> {
                let tail = content@.skip(old(self).spec_offset());
                &&& final(self).spec_offset() == old(self).spec_offset() + complete_len(tail)
                &&& final(self).spec_telemetry() == old(self).spec_telemetry()
                    + telemetry_of_lines(complete_lines(tail))
                &&& final(self).spec_results() == old(self).spec_results() + results_of_lines(
                    complete_lines(tail),
                )
                &&& final(self).spec_commands() == old(self).spec_commands() + commands_of_lines(
                    complete_lines(tail),
                )
            },
    {
        let n = content.unicode_len();
        if self.offset > n {
            return;
        }
        let ghost start = self.offset as int;
        let ghost tail = content@.skip(start);
        let mut pos: usize = self.offset;
        let ghost mut done: Seq<Seq<char>> = Seq::<Seq<char>>::empty();
        proof {
            assert(content@.skip(pos as int) =~= tail);
            assert(complete_lines(tail) =~~= done + complete_lines(content@.skip(pos as int)));
            assert(self.spec_telemetry() =~= old(self).spec_telemetry() + telemetry_of_lines(done));
            assert(self.spec_results() =~= old(self).spec_results() + results_of_lines(done));
            assert(self.spec_commands() =~= old(self).spec_commands() + commands_of_lines(done));
        }
        loop
            invariant
                start <= pos <= n,
                n == content@.len(),
                complete_len(tail) == pos - start + complete_len(content@.skip(pos as int)),
                complete_lines(tail) == done + complete_lines(content@.skip(pos as int)),
                self.spec_telemetry() == old(self).spec_telemetry() + telemetry_of_lines(done),
                self.spec_results() == old(self).spec_results() + results_of_lines(done),
                self.spec_commands() == old(self).spec_commands() + commands_of_lines(done),
            decreases n - pos,
        {
            let mut i: usize = pos;
            while i < n && content.get_char(i) != '\n'
                invariant
                    pos <= i <= n,
                    forall|j: int| pos <= j < i ==> content@[j] != '\n',
                decreases n - i,
            {
                i = i + 1;
            }
            if i == n {
                proof {
                    let rest = content@.skip(pos as int);
                    assert(forall|j: int| 0 <= j < rest.len() ==> rest[j] != '\n');
                    lemma_complete_len_none(rest);
                    assert(complete_lines(rest) =~~= Seq::<Seq<char>>::empty());
                    assert(done + complete_lines(rest) =~~= done);
                }
                break;
            }
            let line_str = content.substring_char(pos, i);
            let ghost l = content@.subrange(pos as int, i as int);
            proof {
                let rest = content@.skip(pos as int);
                let k = i - pos;
                assert(rest[k as int] == '\n');
                assert(forall|j: int| 0 <= j < k ==> rest[j] != '\n');
                lemma_complete_len_skip(rest, k as int);
                lemma_complete_lines_skip(rest, k as int);
                assert(rest.take(k as int) =~= l);
                assert(rest.skip(k as int + 1) =~= content@.skip(i as int + 1));
                lemma_route_prepend(l, complete_lines(content@.skip(i as int + 1)));
                assert(complete_lines(tail) =~~= done.push(l) + complete_lines(
                    content@.skip(i as int + 1),
                ));
                assert(done.push(l).drop_last() =~~= done);
                assert(done.push(l).last() == l);
            }
            if let Some(frame) = parse_telemetry_line(line_str) {
                let ghost prev = self.pending_telemetry@;
                self.pending_telemetry.push(frame);
                proof {
                    assert(frame_views(self.pending_telemetry@) =~= frame_views(prev).push(
                        frame@,
                    ));
                    assert(telemetry_of_lines(done.push(l)) =~~= telemetry_of_lines(done).push(
                        frame@,
                    ));
                    assert(results_of_lines(done.push(l)) =~~= results_of_lines(done));
                    assert(commands_of_lines(done.push(l)) =~~= commands_of_lines(done));
                    assert(self.spec_telemetry() =~= old(self).spec_telemetry()
                        + telemetry_of_lines(done.push(l)));
                }
            } else if let Some(event) = parse_result_line(line_str) {
                let ghost prev = self.pending_results@;
                self.pending_results.push(event);
                proof {
                    assert(result_views(self.pending_results@) =~= result_views(prev).push(
                        event@,
                    ));
                    assert(telemetry_of_lines(done.push(l)) =~~= telemetry_of_lines(done));
                    assert(results_of_lines(done.push(l)) =~~= results_of_lines(done).push(event@));
                    assert(commands_of_lines(done.push(l)) =~~= commands_of_lines(done));
                    assert(self.spec_results() =~= old(self).spec_results() + results_of_lines(
                        done.push(l),
                    ));
                }
            } else if let Some(env) = parse_command_line(line_str) {
                let ghost prev = self.pending_commands@;
                self.pending_commands.push(env);
                proof {
                    assert(command_views(self.pending_commands@) =~= command_views(prev).push(
                        env@,
                    ));
                    assert(telemetry_of_lines(done.push(l)) =~~= telemetry_of_lines(done));
                    assert(results_of_lines(done.push(l)) =~~= results_of_lines(done));
                    assert(commands_of_lines(done.push(l)) =~~= commands_of_lines(done).push(env@));
                    assert(self.spec_commands() =~= old(self).spec_commands() + commands_of_lines(
                        done.push(l),
                    ));
                }
            } else {
                proof {
                    assert(telemetry_of_lines(done.push(l)) =~~= telemetry_of_lines(done));
                    assert(results_of_lines(done.push(l)) =~~= results_of_lines(done));
                    assert(commands_of_lines(done.push(l)) =~~= commands_of_lines(done));
                }
            }
            proof {
                done = done.push(l);
            }
            pos = i + 1;
        }
        self.offset = pos;
    }

    /// Hands out the buffered telemetry frames, oldest first, and empties
    /// that buffer; the offset and the other buffers stay.
    pub fn take_telemetry(&mut self) -> (r: Vec<TelemetryFrame>)
        ensures
            frame_views(r@) == old(self).spec_telemetry(),
            final(self).spec_telemetry() == Seq::<FrameV>::empty(),
            final(self).spec_offset() == old(self).spec_offset(),
            final(self).spec_results() == old(self).spec_results(),
            final(self).spec_commands() == old(self).spec_commands(),
    {
        let mut out: Vec<TelemetryFrame> = Vec::new();
        core::mem::swap(&mut out, &mut self.pending_telemetry);
        proof {
            assert(self.spec_telemetry() =~= Seq::<FrameV>::empty());
        }
        out
    }

    /// Hands out the buffered command result events, oldest first, and
    /// empties that buffer; the offset and the other buffers stay.
    pub fn take_results(&mut self) -> (r: Vec<CommandResultEvent>)
        ensures
            result_views(r@) == old(self).spec_results(),
            final(self).spec_results() == Seq::<ResultEventV>::empty(),
            final(self).spec_offset() == old(self).spec_offset(),
            final(self).spec_telemetry() == old(self).spec_telemetry(),
            final(self).spec_commands() == old(self).spec_commands(),
    {
        let mut out: Vec<CommandResultEvent> = Vec::new();
        core::mem::swap(&mut out, &mut self.pending_results);
        proof {
            assert(self.spec_results() =~= Seq::<ResultEventV>::empty());
        }
        out
    }

    /// Hands out the buffered command envelopes, oldest first, and empties
    /// that buffer; the offset and the other buffers stay.
    pub fn take_commands(&mut self) -> (r: Vec<CommandEnvelope>)
        ensures
            command_views(r@) == old(self).spec_commands(),
            final(self).spec_commands() == Seq::<EnvelopeV>::empty(),
            final(self).spec_offset() == old(self).spec_offset(),
            final(self).spec_telemetry() == old(self).spec_telemetry(),
            final(self).spec_results() == old(self).spec_results(),
    {
        let mut out: Vec<CommandEnvelope> = Vec::new();
        core::mem::swap(&mut out, &mut self.pending_commands);
        proof {
            assert(self.spec_commands() =~= Seq::<EnvelopeV>::empty());
        }
        out
    }
}

} // verus!
