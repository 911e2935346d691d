//! Wire form of telemetry frames: `T|<timestamp>|<joint count>|<five
//! fields per joint>|<payload count>|<three fields per payload>`. Raw
//! sensor readings are not transmitted; a decoded frame always carries an
//! empty reading list.

use vstd::prelude::*;

use crate::codec::b64_decode_text;
use crate::codec::b64_encode_text;
use crate::codec::b64_of;
use crate::codec::b64_round_trips;
use crate::codec::b64_text_of;
use crate::codec::push_field;
use crate::decimal::dec_digits;
use crate::decimal::parse_u64;
use crate::decimal::parse_u64_spec;
use crate::decimal::u64_to_dec;
use crate::fields::join_on;
use crate::fields::lemma_join_push;
use crate::fields::split_fields;
use crate::fields::split_on;
use crate::fields::views_of;
use crate::sensors::PayloadV;
use crate::sensors::SensorPayload;
use crate::telemetry::FrameV;
use crate::telemetry::JointState;
use crate::telemetry::JointV;
use crate::telemetry::TelemetryFrame;

verus! {

/// The five wire fields of one joint.
pub open spec fn joint_fields(j: JointV) -> Seq<Seq<char>> {
    seq![j.id, j.name, j.position, j.velocity, j.load]
}

/// The wire fields of a joint list, in order.
pub open spec fn joints_fields(js: Seq<JointV>) -> Seq<Seq<char>>
    decreases js.len(),
{
    if js.len() == 0 {
        Seq::<Seq<char>>::empty()
    } else {
        joints_fields(js.drop_last()) + joint_fields(js.last())
    }
}

/// The three wire fields of one sensor payload.
pub open spec fn payload_fields(p: PayloadV) -> Seq<Seq<char>> {
    seq![p.id, p.sensor_type, b64_of(p.payload)]
}

/// The wire fields of a payload list, in order.
pub open spec fn payloads_fields(ps: Seq<PayloadV>) -> Seq<Seq<char>>
    decreases ps.len(),
{
    if ps.len() == 0 {
        Seq::<Seq<char>>::empty()
    } else {
        payloads_fields(ps.drop_last()) + payload_fields(ps.last())
    }
}

/// The field list of a telemetry record line.
pub open spec fn frame_fields(f: FrameV) -> Seq<Seq<char>> {
    seq![seq!['T'], dec_digits(f.timestamp_ns as nat), dec_digits(f.joints.len() as nat)]
        + joints_fields(f.joints) + seq![dec_digits(f.payloads.len() as nat)] + payloads_fields(
        f.payloads,
    )
}

/// The wire line of a telemetry record, line terminator not included.
pub open spec fn encode_frame_spec(f: FrameV) -> Seq<char> {
    join_on(frame_fields(f), '|')
}

/// The joint whose five fields start at `base`.
pub open spec fn parse_joint(f: Seq<Seq<char>>, base: int) -> JointV {
    JointV {
        id: f[base],
        name: f[base + 1],
        position: f[base + 2],
        velocity: f[base + 3],
        load: f[base + 4],
    }
}

/// The payload whose three fields start at `base`.
pub open spec fn parse_payload(f: Seq<Seq<char>>, base: int) -> PayloadV {
    PayloadV { id: f[base], sensor_type: f[base + 1], payload: b64_text_of(f[base + 2])->Some_0 }
}

/// What a field list denotes when read as a telemetry record.
pub open spec fn parse_telemetry_fields(f: Seq<Seq<char>>) -> Option<FrameV> {
    if f.len() < 3 || f[0] != seq!['T'] {
        None
    } else if parse_u64_spec(f[1]) is None || parse_u64_spec(f[2]) is None {
        None
    } else {
        let ts = parse_u64_spec(f[1])->Some_0;
        let jc = parse_u64_spec(f[2])->Some_0 as int;
        if f.len() < 4 + 5 * jc {
            None
        } else if parse_u64_spec(f[3 + 5 * jc]) is None {
            None
        } else {
            let pc = parse_u64_spec(f[3 + 5 * jc])->Some_0 as int;
            if f.len() != 4 + 5 * jc + 3 * pc {
                None
            } else if exists|k: int|
                0 <= k < pc && b64_text_of(#[trigger] f[4 + 5 * jc + 3 * k + 2]) is None {
                None
            } else {
                Some(
                    FrameV {
                        timestamp_ns: ts,
                        joints: Seq::new(jc as nat, |k: int| parse_joint(f, 3 + 5 * k)),
                        sensors: Seq::empty(),
                        payloads: Seq::new(
                            pc as nat,
                            |k: int| parse_payload(f, 4 + 5 * jc + 3 * k),
                        ),
                    },
                )
            }
        }
    }
}

/// What one line denotes when read as a telemetry record.
pub open spec fn parse_telemetry_spec(line: Seq<char>) -> Option<FrameV> {
    parse_telemetry_fields(split_on(line, '|'))
}

/// Encodes a telemetry frame as one wire line, terminator not included.
/// Raw sensor readings are not transmitted.
#[verifier::loop_isolation(false)]
pub fn encode_telemetry(f: &TelemetryFrame) -> (r: String)
    ensures
        r@ == encode_frame_spec(f@),
        forall|k: int|
            0 <= k < f@.payloads.len() ==> b64_round_trips(#[trigger] f@.payloads[k].payload),
{
    let ghost head: Seq<Seq<char>> = seq![
        seq!['T'],
        dec_digits(f@.timestamp_ns as nat),
        dec_digits(f@.joints.len() as nat),
    ];
    let mut s = String::new();
    s.append("T");
    let ts_text = u64_to_dec(f.timestamp_ns);
    push_field(&mut s, ts_text.as_str());
    let jc_text = u64_to_dec(f.joints.len() as u64);
    push_field(&mut s, jc_text.as_str());
    proof {
        reveal_strlit("T");
        assert("T"@ =~= seq!['T']);
        let f1 = seq![seq!['T']];
        assert(join_on(f1, '|') == seq!['T']);
        let f2 = f1.push(dec_digits(f@.timestamp_ns as nat));
        lemma_join_push(f1, dec_digits(f@.timestamp_ns as nat), '|');
        let f3 = f2.push(dec_digits(f@.joints.len() as nat));
        lemma_join_push(f2, dec_digits(f@.joints.len() as nat), '|');
        assert(f3 =~~= head);
        assert(joints_fields(f@.joints.take(0)) =~~= Seq::<Seq<char>>::empty());
        assert(head + joints_fields(f@.joints.take(0)) =~~= head);
        assert(s@ == join_on(head + joints_fields(f@.joints.take(0)), '|'));
    }
    let jc = f.joints.len();
    let mut k: usize = 0;
    while k < jc
        invariant
            jc == f.joints.len(),
            k <= jc,
            s@ == join_on(head + joints_fields(f@.joints.take(k as int)), '|'),
        decreases jc - k,
    {
        let joint = &f.joints[k];
        push_field(&mut s, joint.id.as_str());
        push_field(&mut s, joint.name.as_str());
        push_field(&mut s, joint.position.as_str());
        push_field(&mut s, joint.velocity.as_str());
        push_field(&mut s, joint.load.as_str());
        proof {
            let before = head + joints_fields(f@.joints.take(k as int));
            let jv = f@.joints[k as int];
            let g1 = before.push(jv.id);
            lemma_join_push(before, jv.id, '|');
            let g2 = g1.push(jv.name);
            lemma_join_push(g1, jv.name, '|');
            let g3 = g2.push(jv.position);
            lemma_join_push(g2, jv.position, '|');
            let g4 = g3.push(jv.velocity);
            lemma_join_push(g3, jv.velocity, '|');
            let g5 = g4.push(jv.load);
            lemma_join_push(g4, jv.load, '|');
            assert(f@.joints.take(k as int + 1).drop_last() =~~= f@.joints.take(k as int));
            assert(f@.joints.take(k as int + 1).last() == jv);
            assert(joints_fields(f@.joints.take(k as int + 1)) == joints_fields(
                f@.joints.take(k as int),
            ) + joint_fields(jv));
            assert(g5 =~~= head + joints_fields(f@.joints.take(k as int + 1)));
        }
        k = k + 1;
    }
    proof {
        assert(f@.joints.take(jc as int) =~~= f@.joints);
    }
    let ghost mid: Seq<Seq<char>> = head + joints_fields(f@.joints) + seq![
        dec_digits(f@.payloads.len() as nat),
    ];
    let pc_text = u64_to_dec(f.payloads.len() as u64);
    push_field(&mut s, pc_text.as_str());
    proof {
        let before = head + joints_fields(f@.joints);
        lemma_join_push(before, dec_digits(f@.payloads.len() as nat), '|');
        assert(before.push(dec_digits(f@.payloads.len() as nat)) =~~= mid);
        assert(payloads_fields(f@.payloads.take(0)) =~~= Seq::<Seq<char>>::empty());
        assert(mid + payloads_fields(f@.payloads.take(0)) =~~= mid);
        assert(s@ == join_on(mid + payloads_fields(f@.payloads.take(0)), '|'));
    }
    let pc = f.payloads.len();
    let mut m: usize = 0;
    while m < pc
        invariant
            pc == f.payloads.len(),
            m <= pc,
            s@ == join_on(mid + payloads_fields(f@.payloads.take(m as int)), '|'),
            forall|i: int|
                0 <= i < m ==> b64_round_trips(#[trigger] f@.payloads[i].payload),
        decreases pc - m,
    {
        let payload = &f.payloads[m];
        push_field(&mut s, payload.id.as_str());
        push_field(&mut s, payload.sensor_type.as_str());
        let b64_text = b64_encode_text(payload.payload.as_str());
        push_field(&mut s, b64_text.as_str());
        proof {
            let before = mid + payloads_fields(f@.payloads.take(m as int));
            let pv = f@.payloads[m as int];
            let g1 = before.push(pv.id);
            lemma_join_push(before, pv.id, '|');
            let g2 = g1.push(pv.sensor_type);
            lemma_join_push(g1, pv.sensor_type, '|');
            let g3 = g2.push(b64_of(pv.payload));
            lemma_join_push(g2, b64_of(pv.payload), '|');
            assert(f@.payloads.take(m as int + 1).drop_last() =~~= f@.payloads.take(m as int));
            assert(f@.payloads.take(m as int + 1).last() == pv);
            assert(payloads_fields(f@.payloads.take(m as int + 1)) == payloads_fields(
                f@.payloads.take(m as int),
            ) + payload_fields(pv));
            assert(g3 =~~= mid + payloads_fields(f@.payloads.take(m as int + 1)));
        }
        m = m + 1;
    }
    proof {
        assert(f@.payloads.take(pc as int) =~~= f@.payloads);
        assert(mid + payloads_fields(f@.payloads) =~~= frame_fields(f@));
    }
    s
}

/// Reads one line as a telemetry record; `None` exactly on the lines the
/// wire meaning assigns no frame to.
#[verifier::loop_isolation(false)]
pub fn parse_telemetry_line(line: &str) -> (r: Option<TelemetryFrame>)
    ensures
        match r {
            Some(frame) => parse_telemetry_spec(line@) == Some(frame@),
            None => parse_telemetry_spec(line@) is None,
        },
{
    let fields = split_fields(line);
    let ghost f = split_on(line@, '|');
    let flen = fields.len();
    proof {
        assert(views_of(fields@) == f);
        assert(fields@.len() == f.len());
        assert(f.len() <= usize::MAX);
        assert forall|i: int| 0 <= i < f.len() implies f[i] == #[trigger] fields@[i]@ by {
            assert(f[i] == views_of(fields@)[i]);
        }
    }
    if fields.len() < 3 {
        return None;
    }
    if fields[0].as_str().unicode_len() != 1 || fields[0].as_str().get_char(0) != 'T' {
        proof {
            assert(f[0] == fields@[0]@);
            assert(f[0] != seq!['T']);
        }
        return None;
    }
    proof {
        assert(f[0] =~= seq!['T']);
    }
    let timestamp_ns = match parse_u64(fields[1].as_str()) {
        Some(v) => v,
        None => {
            return None;
        },
    };
    let jc64 = match parse_u64(fields[2].as_str()) {
        Some(v) => v,
        None => {
            return None;
        },
    };
    let ghost jci = jc64 as int;
    if fields.len() < 4 {
        proof {
            assert(f.len() < 4 + 5 * jci);
        }
        return None;
    }
    let joint_cap = (fields.len() - 4) / 5;
    if jc64 > joint_cap as u64 {
        proof {
            assert(f.len() - 4 < 5 * jci);
        }
        return None;
    }
    let jc = jc64 as usize;
    proof {
        assert(5 * jci <= f.len() - 4);
        assert(!(f.len() < 4 + 5 * jci));
    }
    let count_index = 3 + 5 * jc;
    let pc64 = match parse_u64(fields[count_index].as_str()) {
        Some(v) => v,
        None => {
            return None;
        },
    };
    let ghost pci = pc64 as int;
    let rem = fields.len() - 4 - 5 * jc;
    let payload_cap = rem / 3;
    if pc64 > payload_cap as u64 {
        proof {
            assert(rem < 3 * pci);
            assert(f.len() != 4 + 5 * jci + 3 * pci);
        }
        return None;
    }
    let pc = pc64 as usize;
    if rem != 3 * pc {
        proof {
            assert(f.len() != 4 + 5 * jci + 3 * pci);
        }
        return None;
    }
    let mut joints: Vec<JointState> = Vec::new();
    let mut k: usize = 0;
    while k < jc
        invariant
            jc == jc64,
            fields@.len() == f.len(),
            f.len() <= usize::MAX,
            views_of(fields@) == f,
            forall|i: int| 0 <= i < f.len() ==> f[i] == #[trigger] fields@[i]@,
            f.len() >= 4 + 5 * jc,
            k <= jc,
            joints@.len() == k,
            forall|i: int| 0 <= i < k ==> #[trigger] joints@[i]@ == parse_joint(f, 3 + 5 * i),
        decreases jc - k,
    {
        let base = 3 + 5 * k;
        let joint = JointState {
            id: fields[base].clone(),
            name: fields[base + 1].clone(),
            position: fields[base + 2].clone(),
            velocity: fields[base + 3].clone(),
            load: fields[base + 4].clone(),
        };
        joints.push(joint);
        k = k + 1;
    }
    let pbase = 4 + 5 * jc;
    let mut payloads: Vec<SensorPayload> = Vec::new();
    let mut m: usize = 0;
    while m < pc
        invariant
            jc == jc64,
            pc == pc64,
            fields@.len() == f.len(),
            f.len() <= usize::MAX,
            views_of(fields@) == f,
            forall|i: int| 0 <= i < f.len() ==> f[i] == #[trigger] fields@[i]@,
            pbase == 4 + 5 * jc,
            f.len() == 4 + 5 * jc + 3 * pc,
            m <= pc,
            payloads@.len() == m,
            forall|i: int|
                0 <= i < m ==> b64_text_of(#[trigger] f[4 + 5 * jc + 3 * i + 2]) is Some,
            forall|i: int|
                0 <= i < m ==> #[trigger] payloads@[i]@ == parse_payload(f, 4 + 5 * jc + 3 * i),
        decreases pc - m,
    {
        let base = pbase + 3 * m;
        let decoded = match b64_decode_text(fields[base + 2].as_str()) {
            Some(p) => p,
            None => {
                proof {
                    let kk = m as int;
                    assert(b64_text_of(f[4 + 5 * (jc64 as int) + 3 * kk + 2]) is None);
                    assert(exists|i: int|
                        0 <= i < pc64 as int && b64_text_of(
                            #[trigger] f[4 + 5 * (jc64 as int) + 3 * i + 2],
                        ) is None);
                }
                return None;
            },
        };
        let payload = SensorPayload {
            id: fields[base].clone(),
            sensor_type: fields[base + 1].clone(),
            payload: decoded,
        };
        payloads.push(payload);
        m = m + 1;
    }
    let frame = TelemetryFrame { timestamp_ns, joints, sensors: Vec::new(), payloads };
    proof {
        let expected = parse_telemetry_fields(f);
        assert(!(exists|k: int|
            0 <= k < pci && b64_text_of(#[trigger] f[4 + 5 * jci + 3 * k + 2]) is None));
        assert(frame@.joints =~~= Seq::new(jci as nat, |k: int| parse_joint(f, 3 + 5 * k)));
        assert(frame@.payloads =~~= Seq::new(
            pci as nat,
            |k: int| parse_payload(f, 4 + 5 * jci + 3 * k),
        ));
        assert(frame@.sensors =~~= Seq::<crate::sensors::ReadingV>::empty());
        assert(expected == Some(frame@));
    }
    Some(frame)
}

} // verus!
