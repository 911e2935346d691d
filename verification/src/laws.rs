//! Cross-cutting laws of the exchange layer, proved from the codec's and
//! the reader's own specifications: the telemetry round trip, and what one
//! poll of the tailing reader delivers for an empty log, a single record,
//! a partial line, an interleaving, and an unreadable line.

use vstd::prelude::*;

use crate::codec::b64_round_trips;
use crate::codec::lemma_digits_field_safe;
use crate::commands::EnvelopeV;
use crate::commands::ResultEventV;
use crate::decimal::dec_digits;
use crate::decimal::lemma_parse_dec_digits;
use crate::fields::field_safe;
use crate::fields::lemma_join_no_newline;
use crate::fields::lemma_split_join;
use crate::fields::lemma_split_single;
use crate::fields::split_on;
use crate::sensors::PayloadV;
use crate::sensors::ReadingV;
use crate::tail::commands_of_lines;
use crate::tail::complete_len;
use crate::tail::complete_lines;
use crate::tail::lemma_complete_len_bounds;
use crate::tail::lemma_complete_len_none;
use crate::tail::results_of_lines;
use crate::tail::telemetry_of_lines;
use crate::telemetry::FrameV;
use crate::telemetry::JointV;
use crate::telemetry_codec::encode_frame_spec;
use crate::telemetry_codec::frame_fields;
use crate::telemetry_codec::joint_fields;
use crate::telemetry_codec::joints_fields;
use crate::telemetry_codec::parse_joint;
use crate::telemetry_codec::parse_payload;
use crate::telemetry_codec::parse_telemetry_fields;
use crate::telemetry_codec::parse_telemetry_spec;
use crate::telemetry_codec::payload_fields;
use crate::telemetry_codec::payloads_fields;

verus! {

/// Every text field of the frame can stand as one field of its line, and
/// every payload survives its base64 embedding.
pub open spec fn frame_wire_safe(f: FrameV) -> bool {
    &&& forall|k: int|
        0 <= k < f.joints.len() ==> {
            &&& field_safe(#[trigger] f.joints[k].id)
            &&& field_safe(f.joints[k].name)
            &&& field_safe(f.joints[k].position)
            &&& field_safe(f.joints[k].velocity)
            &&& field_safe(f.joints[k].load)
        }
    &&& forall|k: int|
        0 <= k < f.payloads.len() ==> {
            &&& field_safe(#[trigger] f.payloads[k].id)
            &&& field_safe(f.payloads[k].sensor_type)
            &&& b64_round_trips(f.payloads[k].payload)
        }
}

proof fn lemma_joints_fields_len(js: Seq<JointV>)
    ensures
        joints_fields(js).len() == 5 * js.len(),
    decreases js.len(),
{
    if js.len() > 0 {
        lemma_joints_fields_len(js.drop_last());
    }
}

proof fn lemma_payloads_fields_len(ps: Seq<PayloadV>)
    ensures
        payloads_fields(ps).len() == 3 * ps.len(),
    decreases ps.len(),
{
    if ps.len() > 0 {
        lemma_payloads_fields_len(ps.drop_last());
    }
}

proof fn lemma_joints_fields_index(js: Seq<JointV>, k: int, m: int)
    requires
        0 <= k < js.len(),
        0 <= m < 5,
    ensures
        joints_fields(js)[5 * k + m] == joint_fields(js[k])[m],
    decreases js.len(),
{
    lemma_joints_fields_len(js);
    lemma_joints_fields_len(js.drop_last());
    if k == js.len() - 1 {
        assert(joints_fields(js)[5 * k + m] == joint_fields(js.last())[m]);
    } else {
        lemma_joints_fields_index(js.drop_last(), k, m);
        assert(js.drop_last()[k] == js[k]);
    }
}

proof fn lemma_payloads_fields_index(ps: Seq<PayloadV>, k: int, m: int)
    requires
        0 <= k < ps.len(),
        0 <= m < 3,
    ensures
        payloads_fields(ps)[3 * k + m] == payload_fields(ps[k])[m],
    decreases ps.len(),
{
    lemma_payloads_fields_len(ps);
    lemma_payloads_fields_len(ps.drop_last());
    if k == ps.len() - 1 {
        assert(payloads_fields(ps)[3 * k + m] == payload_fields(ps.last())[m]);
    } else {
        lemma_payloads_fields_index(ps.drop_last(), k, m);
        assert(ps.drop_last()[k] == ps[k]);
    }
}

/// Every field of a wire-safe frame's line is free of delimiters and
/// terminators.
proof fn lemma_frame_fields_safe(f: FrameV)
    requires
        frame_wire_safe(f),
    ensures
        frame_fields(f).len() == 4 + 5 * f.joints.len() + 3 * f.payloads.len(),
        forall|k: int, i: int|
            0 <= k < frame_fields(f).len() && 0 <= i < frame_fields(f)[k].len()
                ==> #[trigger] frame_fields(f)[k][i] != '|' && frame_fields(f)[k][i] != '\n',
{
    let ff = frame_fields(f);
    let jc = f.joints.len() as int;
    let pc = f.payloads.len() as int;
    lemma_joints_fields_len(f.joints);
    lemma_payloads_fields_len(f.payloads);
    assert(ff.len() == 4 + 5 * jc + 3 * pc);
    lemma_digits_field_safe(f.timestamp_ns as nat);
    lemma_digits_field_safe(f.joints.len() as nat);
    lemma_digits_field_safe(f.payloads.len() as nat);
    assert forall|k: int, i: int|
        0 <= k < ff.len() && 0 <= i < ff[k].len() implies #[trigger] ff[k][i] != '|' && ff[k][i]
        != '\n' by {
        if k == 0 {
            assert(ff[k][i] == 'T');
        } else if k == 1 || k == 2 || k == 3 + 5 * jc {
            assert(field_safe(ff[k]));
        } else if 3 <= k < 3 + 5 * jc {
            let kk = (k - 3) / 5;
            let mm = (k - 3) % 5;
            assert(k == 3 + 5 * kk + mm);
            assert(0 <= kk < jc);
            lemma_joints_fields_index(f.joints, kk, mm);
            assert(ff[k] == joints_fields(f.joints)[5 * kk + mm]);
            assert(ff[k] == joint_fields(f.joints[kk])[mm]);
            assert(field_safe(ff[k]));
        } else {
            let kk = (k - 4 - 5 * jc) / 3;
            let mm = (k - 4 - 5 * jc) % 3;
            assert(k == 4 + 5 * jc + 3 * kk + mm);
            assert(0 <= kk < pc);
            lemma_payloads_fields_index(f.payloads, kk, mm);
            assert(ff[k] == payloads_fields(f.payloads)[3 * kk + mm]);
            assert(ff[k] == payload_fields(f.payloads[kk])[mm]);
            assert(field_safe(ff[k]));
        }
    }
}

/// Law: decoding an encoded telemetry line restores the frame field for
/// field, for every frame whose text fields can stand on the wire. Raw
/// sensor readings are not transmitted, so the frame carries none.
#[verifier::rlimit(100)]
pub proof fn lemma_telemetry_round_trip(f: FrameV)
    requires
        frame_wire_safe(f),
        f.sensors == Seq::<ReadingV>::empty(),
        f.joints.len() <= u64::MAX,
        f.payloads.len() <= u64::MAX,
    ensures
        parse_telemetry_spec(encode_frame_spec(f)) == Some(f),
{
    let ff = frame_fields(f);
    let jc = f.joints.len() as int;
    let pc = f.payloads.len() as int;
    lemma_joints_fields_len(f.joints);
    lemma_payloads_fields_len(f.payloads);
    lemma_frame_fields_safe(f);
    lemma_split_join(ff, '|');
    assert(split_on(encode_frame_spec(f), '|') == ff);
    lemma_parse_dec_digits(f.timestamp_ns);
    lemma_parse_dec_digits(f.joints.len() as u64);
    lemma_parse_dec_digits(f.payloads.len() as u64);
    assert(ff[0] == seq!['T']);
    assert(ff[1] == dec_digits(f.timestamp_ns as nat));
    assert(ff[2] == dec_digits(f.joints.len() as nat));
    assert(ff[3 + 5 * jc] == dec_digits(f.payloads.len() as nat));
    assert forall|k: int, m: int| 0 <= k < jc && 0 <= m < 5 implies ff[3 + 5 * k + m]
        == joint_fields(f.joints[k])[m] by {
        lemma_joints_fields_index(f.joints, k, m);
    }
    assert forall|k: int, m: int| 0 <= k < pc && 0 <= m < 3 implies ff[4 + 5 * jc + 3 * k + m]
        == payload_fields(f.payloads[k])[m] by {
        lemma_payloads_fields_index(f.payloads, k, m);
    }
    assert(Seq::new(jc as nat, |k: int| parse_joint(ff, 3 + 5 * k)) =~= f.joints) by {
        assert forall|k: int| 0 <= k < jc implies parse_joint(ff, 3 + 5 * k) == f.joints[k] by {
            assert(ff[3 + 5 * k] == joint_fields(f.joints[k])[0]);
            assert(ff[3 + 5 * k + 1] == joint_fields(f.joints[k])[1]);
            assert(ff[3 + 5 * k + 2] == joint_fields(f.joints[k])[2]);
            assert(ff[3 + 5 * k + 3] == joint_fields(f.joints[k])[3]);
            assert(ff[3 + 5 * k + 4] == joint_fields(f.joints[k])[4]);
        }
    }
    assert forall|k: int| 0 <= k < pc implies b64_round_trips(
        #[trigger] f.payloads[k].payload,
    ) by {
        assert(field_safe(f.payloads[k].id) && b64_round_trips(f.payloads[k].payload));
    }
    assert(Seq::new(pc as nat, |k: int| parse_payload(ff, 4 + 5 * jc + 3 * k)) =~= f.payloads) by {
        assert forall|k: int| 0 <= k < pc implies parse_payload(ff, 4 + 5 * jc + 3 * k)
            == f.payloads[k] by {
            assert(ff[4 + 5 * jc + 3 * k] == payload_fields(f.payloads[k])[0]);
            assert(ff[4 + 5 * jc + 3 * k + 1] == payload_fields(f.payloads[k])[1]);
            assert(ff[4 + 5 * jc + 3 * k + 2] == payload_fields(f.payloads[k])[2]);
            assert(b64_round_trips(f.payloads[k].payload));
        }
    }
    assert(!(exists|k: int|
        0 <= k < pc && crate::codec::b64_text_of(#[trigger] ff[4 + 5 * jc + 3 * k + 2]) is None))
        by {
        assert forall|k: int| 0 <= k < pc implies crate::codec::b64_text_of(
            #[trigger] ff[4 + 5 * jc + 3 * k + 2],
        ) is Some by {
            assert(ff[4 + 5 * jc + 3 * k + 2] == payload_fields(f.payloads[k])[2]);
            assert(b64_round_trips(f.payloads[k].payload));
        }
    }
    assert(parse_telemetry_fields(ff) == Some(f));
}

/// Law: a poll against an empty log consumes nothing and delivers nothing,
/// so a fresh reader (offset zero) returns empty sequences.
pub proof fn lemma_empty_log_poll()
    ensures
        complete_len(Seq::<char>::empty()) == 0,
        complete_lines(Seq::<char>::empty()) == Seq::<Seq<char>>::empty(),
        telemetry_of_lines(Seq::<Seq<char>>::empty()) == Seq::<FrameV>::empty(),
        results_of_lines(Seq::<Seq<char>>::empty()) == Seq::<ResultEventV>::empty(),
        commands_of_lines(Seq::<Seq<char>>::empty()) == Seq::<EnvelopeV>::empty(),
{
    assert(complete_lines(Seq::<char>::empty()) =~~= Seq::<Seq<char>>::empty());
}

/// Law: one complete telemetry record alone in the tail is consumed whole
/// and delivered exactly once, to the telemetry buffer only; the advanced
/// offset leaves nothing behind for a second poll.
pub proof fn lemma_single_telemetry_poll(f: FrameV)
    requires
        frame_wire_safe(f),
        f.sensors == Seq::<ReadingV>::empty(),
        f.joints.len() <= u64::MAX,
        f.payloads.len() <= u64::MAX,
    ensures
        complete_len(encode_frame_spec(f) + seq!['\n']) == encode_frame_spec(f).len() + 1,
        telemetry_of_lines(complete_lines(encode_frame_spec(f) + seq!['\n'])) == seq![f],
        results_of_lines(complete_lines(encode_frame_spec(f) + seq!['\n']))
            == Seq::<ResultEventV>::empty(),
        commands_of_lines(complete_lines(encode_frame_spec(f) + seq!['\n']))
            == Seq::<EnvelopeV>::empty(),
{
    lemma_telemetry_round_trip(f);
    lemma_frame_fields_safe(f);
    lemma_join_no_newline(frame_fields(f));
    let enc = encode_frame_spec(f);
    let line = enc + seq!['\n'];
    assert(line.last() == '\n');
    assert(complete_len(line) == line.len());
    assert(line.take(line.len() - 1) =~= enc);
    assert(forall|i: int| 0 <= i < enc.len() ==> #[trigger] enc[i] != '\n');
    lemma_split_single(enc, '\n');
    assert(complete_lines(line) =~~= seq![enc]);
    let ls = seq![enc];
    assert(ls.drop_last() =~~= Seq::<Seq<char>>::empty());
    assert(ls.last() == enc);
    assert(telemetry_of_lines(Seq::<Seq<char>>::empty()) == Seq::<FrameV>::empty());
    assert(results_of_lines(Seq::<Seq<char>>::empty()) == Seq::<ResultEventV>::empty());
    assert(commands_of_lines(Seq::<Seq<char>>::empty()) == Seq::<EnvelopeV>::empty());
    assert(telemetry_of_lines(ls) =~= seq![f]);
    assert(results_of_lines(ls) =~= Seq::<ResultEventV>::empty());
    assert(commands_of_lines(ls) =~= Seq::<EnvelopeV>::empty());
}

/// Law: a partial line (no terminator) is never consumed, and once its
/// remainder arrives with the terminator the whole line is consumed as one
/// complete line, exactly once.
pub proof fn lemma_partial_then_complete(a: Seq<char>, b: Seq<char>)
    requires
        forall|i: int| 0 <= i < a.len() ==> a[i] != '\n',
        forall|i: int| 0 <= i < b.len() ==> b[i] != '\n',
    ensures
        complete_len(a) == 0,
        complete_lines(a) == Seq::<Seq<char>>::empty(),
        complete_len(a + b + seq!['\n']) == a.len() + b.len() + 1,
        complete_lines(a + b + seq!['\n']) == seq![a + b],
{
    lemma_complete_len_none(a);
    assert(complete_lines(a) =~~= Seq::<Seq<char>>::empty());
    let whole = a + b + seq!['\n'];
    assert(whole.last() == '\n');
    assert(complete_len(whole) == whole.len());
    assert(whole.take(whole.len() - 1) =~= a + b);
    assert(forall|i: int| 0 <= i < (a + b).len() ==> #[trigger] (a + b)[i] != '\n');
    lemma_split_single(a + b, '\n');
    assert(complete_lines(whole) =~~= seq![a + b]);
}

/// Law: routing distributes over splitting the line list anywhere, so the
/// relative order inside each buffer is the order the lines stand in.
pub proof fn lemma_route_append(ls1: Seq<Seq<char>>, ls2: Seq<Seq<char>>)
    ensures
        telemetry_of_lines(ls1 + ls2) == telemetry_of_lines(ls1) + telemetry_of_lines(ls2),
        results_of_lines(ls1 + ls2) == results_of_lines(ls1) + results_of_lines(ls2),
        commands_of_lines(ls1 + ls2) == commands_of_lines(ls1) + commands_of_lines(ls2),
    decreases ls2.len(),
{
    if ls2.len() == 0 {
        assert(ls1 + ls2 =~~= ls1);
        assert(telemetry_of_lines(ls1 + ls2) =~~= telemetry_of_lines(ls1) + telemetry_of_lines(
            ls2,
        ));
        assert(results_of_lines(ls1 + ls2) =~~= results_of_lines(ls1) + results_of_lines(ls2));
        assert(commands_of_lines(ls1 + ls2) =~~= commands_of_lines(ls1) + commands_of_lines(ls2));
    } else {
        lemma_route_append(ls1, ls2.drop_last());
        assert((ls1 + ls2).drop_last() =~~= ls1 + ls2.drop_last());
        assert((ls1 + ls2).last() == ls2.last());
        assert(telemetry_of_lines(ls1 + ls2) =~~= telemetry_of_lines(ls1) + telemetry_of_lines(
            ls2,
        ));
        assert(results_of_lines(ls1 + ls2) =~~= results_of_lines(ls1) + results_of_lines(ls2));
        assert(commands_of_lines(ls1 + ls2) =~~= commands_of_lines(ls1) + commands_of_lines(ls2));
    }
}

/// Law: consuming the complete region leaves a remainder without any
/// complete line, so a second poll with no new appends delivers nothing:
/// no line is ever re-delivered.
pub proof fn lemma_no_redelivery(s: Seq<char>)
    ensures
        complete_len(s.skip(complete_len(s))) == 0,
        complete_lines(s.skip(complete_len(s))) == Seq::<Seq<char>>::empty(),
    decreases s.len(),
{
    lemma_complete_len_bounds(s);
    if s.len() == 0 {
        assert(s.skip(0) =~= s);
    } else if s.last() == '\n' {
        assert(s.skip(s.len() as int) =~= Seq::<char>::empty());
    } else {
        lemma_no_redelivery(s.drop_last());
        let c = complete_len(s);
        lemma_complete_len_bounds(s.drop_last());
        assert(s.drop_last().skip(c) =~= s.skip(c).drop_last());
        assert(s.skip(c).last() == s.last());
    }
    assert(complete_lines(s.skip(complete_len(s))) =~~= Seq::<Seq<char>>::empty());
}

/// Law: a line that reads as no record contributes nothing to any buffer
/// and does not stop the lines after it from being delivered.
pub proof fn lemma_unreadable_line_skipped(l: Seq<char>, ls: Seq<Seq<char>>)
    requires
        parse_telemetry_spec(l) is None,
        crate::codec::parse_result_spec(l) is None,
        crate::codec::parse_command_spec(l) is None,
    ensures
        telemetry_of_lines(seq![l] + ls) == telemetry_of_lines(ls),
        results_of_lines(seq![l] + ls) == results_of_lines(ls),
        commands_of_lines(seq![l] + ls) == commands_of_lines(ls),
{
    crate::tail::lemma_route_prepend(l, ls);
    let single = seq![l];
    assert(single.drop_last() =~~= Seq::<Seq<char>>::empty());
    assert(single.last() == l);
    assert(telemetry_of_lines(Seq::<Seq<char>>::empty()) == Seq::<FrameV>::empty());
    assert(results_of_lines(Seq::<Seq<char>>::empty()) == Seq::<ResultEventV>::empty());
    assert(commands_of_lines(Seq::<Seq<char>>::empty()) == Seq::<EnvelopeV>::empty());
    assert(telemetry_of_lines(single) =~= Seq::<FrameV>::empty());
    assert(results_of_lines(single) =~= Seq::<ResultEventV>::empty());
    assert(commands_of_lines(single) =~= Seq::<EnvelopeV>::empty());
    assert(telemetry_of_lines(seq![l] + ls) =~= telemetry_of_lines(ls));
    assert(results_of_lines(seq![l] + ls) =~= results_of_lines(ls));
    assert(commands_of_lines(seq![l] + ls) =~= commands_of_lines(ls));
}

} // verus!
