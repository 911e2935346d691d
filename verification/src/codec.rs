//! Line protocol codec: each record is one newline-terminated,
//! pipe-delimited line whose first field is a one-character tag — `C` for
//! a command, `R` for a command result, `T` for a telemetry frame.
//! Numeric fields are decimal text, enumerated fields their wire codes,
//! and opaque payloads are base64-embedded so they may safely contain the
//! delimiter or control characters.

use vstd::prelude::*;

use crate::commands::CommandAuthority;
use crate::commands::CommandDomain;
use crate::commands::CommandEnvelope;
use crate::commands::CommandPriority;
use crate::commands::CommandResult;
use crate::commands::CommandResultEvent;
use crate::commands::CommandStatus;
use crate::commands::EnvelopeV;
use crate::commands::RejectReason;
use crate::commands::ResultEventV;
use crate::commands::ResultV;
use crate::commands::UgvCommand;
use crate::commands::lemma_authority_code_round_trip;
use crate::commands::lemma_domain_code_round_trip;
use crate::commands::lemma_priority_code_round_trip;
use crate::commands::lemma_reject_code_round_trip;
use crate::commands::lemma_status_code_round_trip;
use crate::decimal::dec_digits;
use crate::decimal::is_digit_char;
use crate::decimal::lemma_dec_digits_are_digits;
use crate::decimal::lemma_parse_dec_digits;
use crate::decimal::parse_u64;
use crate::decimal::parse_u64_spec;
use crate::decimal::u64_to_dec;
use crate::fields::field_safe;
use crate::fields::join_on;
use crate::fields::lemma_join_push;
use crate::fields::lemma_split_join;
use crate::fields::split_fields;
use crate::fields::split_on;
use crate::fields::views_of;

use base64::Engine;

verus! {

/// The base64 text (standard alphabet) of the UTF-8 bytes of `s`.
pub uninterp spec fn b64_of(s: Seq<char>) -> Seq<char>;

/// The text whose UTF-8 bytes `s` encodes in base64: `None` when `s` is
/// not valid base64 or the decoded bytes are not UTF-8.
pub uninterp spec fn b64_text_of(s: Seq<char>) -> Option<Seq<char>>;

/// The payload text survives the base64 round trip and its encoding can
/// stand as one field of a record line.
pub open spec fn b64_round_trips(p: Seq<char>) -> bool {
    &&& b64_text_of(b64_of(p)) == Some(p)
    &&& field_safe(b64_of(p))
}

/// Relies on base64's `STANDARD.encode`: the result is the base64 text of
/// the UTF-8 bytes of `s`, written in the standard alphabet (`A`-`Z`,
/// `a`-`z`, `0`-`9`, `+`, `/`, `=`), so it holds no pipe and no newline;
/// `STANDARD.decode` restores exactly the encoded bytes.
#[verifier::external_body]
pub(crate) fn b64_encode_text(s: &str) -> (r: String)
    ensures
        r@ == b64_of(s@),
        b64_text_of(r@) == Some(s@),
        field_safe(r@),
{
    base64::engine::general_purpose::STANDARD.encode(s.as_bytes())
}

/// Relies on base64's `STANDARD.decode` and on UTF-8 validation
/// (`String::from_utf8`): the result is a function of the characters of
/// `s` alone.
#[verifier::external_body]
pub(crate) fn b64_decode_text(s: &str) -> (r: Option<String>)
    ensures
        match r {
            Some(t) => b64_text_of(s@) == Some(t@),
            None => b64_text_of(s@) is None,
        },
{
    match base64::engine::general_purpose::STANDARD.decode(s.as_bytes()) {
        Ok(bytes) => String::from_utf8(bytes).ok(),
        Err(_) => None,
    }
}

/// Appends one more pipe-delimited field to a line under construction.
pub(crate) fn push_field(s: &mut String, f: &str)
    ensures
        final(s)@ == old(s)@ + seq!['|'] + f@,
{
    s.append("|");
    s.append(f);
    proof {
        reveal_strlit("|");
        assert("|"@ =~= seq!['|']);
        assert(s@ =~= old(s)@ + seq!['|'] + f@);
    }
}

/// The field list of a command record line.
pub open spec fn envelope_fields(e: EnvelopeV) -> Seq<Seq<char>> {
    seq![
        seq!['C'],
        dec_digits(e.command_id as nat),
        dec_digits(e.command.code as nat),
        dec_digits(e.domain.spec_code() as nat),
        dec_digits(e.priority.spec_code() as nat),
        dec_digits(e.authority.spec_code() as nat),
        dec_digits(e.issued_ns as nat),
        dec_digits(e.ttl_ns as nat),
        b64_of(e.payload_json),
    ]
}

/// The wire line of a command record, line terminator not included.
pub open spec fn encode_envelope_spec(e: EnvelopeV) -> Seq<char> {
    join_on(envelope_fields(e), '|')
}

/// What a field list denotes when read as a command record.
pub open spec fn parse_command_fields(f: Seq<Seq<char>>) -> Option<EnvelopeV> {
    if f.len() != 9 || f[0] != seq!['C'] {
        None
    } else if parse_u64_spec(f[1]) is None || parse_u64_spec(f[2]) is None || parse_u64_spec(
        f[3],
    ) is None || parse_u64_spec(f[4]) is None || parse_u64_spec(f[5]) is None || parse_u64_spec(
        f[6],
    ) is None || parse_u64_spec(f[7]) is None || b64_text_of(f[8]) is None {
        None
    } else if parse_u64_spec(f[2])->Some_0 > u16::MAX || parse_u64_spec(f[3])->Some_0 > u16::MAX
        || parse_u64_spec(f[4])->Some_0 > u16::MAX || parse_u64_spec(f[5])->Some_0 > u16::MAX {
        None
    } else if CommandDomain::spec_from_code(parse_u64_spec(f[3])->Some_0 as u16) is None
        || CommandPriority::spec_from_code(parse_u64_spec(f[4])->Some_0 as u16) is None
        || CommandAuthority::spec_from_code(parse_u64_spec(f[5])->Some_0 as u16) is None {
        None
    } else {
        Some(
            EnvelopeV {
                command: UgvCommand { code: parse_u64_spec(f[2])->Some_0 as u16 },
                domain: CommandDomain::spec_from_code(parse_u64_spec(f[3])->Some_0 as u16)->Some_0,
                priority: CommandPriority::spec_from_code(
                    parse_u64_spec(f[4])->Some_0 as u16,
                )->Some_0,
                authority: CommandAuthority::spec_from_code(
                    parse_u64_spec(f[5])->Some_0 as u16,
                )->Some_0,
                command_id: parse_u64_spec(f[1])->Some_0,
                issued_ns: parse_u64_spec(f[6])->Some_0,
                ttl_ns: parse_u64_spec(f[7])->Some_0,
                payload_json: b64_text_of(f[8])->Some_0,
            },
        )
    }
}

/// What one line denotes when read as a command record.
pub open spec fn parse_command_spec(line: Seq<char>) -> Option<EnvelopeV> {
    parse_command_fields(split_on(line, '|'))
}

/// The field list of a command result record line.
pub open spec fn result_fields(ev: ResultEventV) -> Seq<Seq<char>> {
    seq![
        seq!['R'],
        dec_digits(ev.command_id as nat),
        dec_digits(ev.result.status.spec_code() as nat),
        dec_digits(ev.result.reject_reason.spec_code() as nat),
        ev.result.message,
    ]
}

/// The wire line of a command result record, line terminator not included.
pub open spec fn encode_result_spec(ev: ResultEventV) -> Seq<char> {
    join_on(result_fields(ev), '|')
}

/// What a field list denotes when read as a command result record: codes
/// outside the status and reason tables read as their unset values.
pub open spec fn parse_result_fields(f: Seq<Seq<char>>) -> Option<ResultEventV> {
    if f.len() != 5 || f[0] != seq!['R'] {
        None
    } else if parse_u64_spec(f[1]) is None || parse_u64_spec(f[2]) is None || parse_u64_spec(
        f[3],
    ) is None {
        None
    } else if parse_u64_spec(f[2])->Some_0 > u16::MAX || parse_u64_spec(f[3])->Some_0
        > u16::MAX {
        None
    } else {
        Some(
            ResultEventV {
                command_id: parse_u64_spec(f[1])->Some_0,
                result: ResultV {
                    status: CommandStatus::spec_from_code(parse_u64_spec(f[2])->Some_0 as u16),
                    reject_reason: RejectReason::spec_from_code(
                        parse_u64_spec(f[3])->Some_0 as u16,
                    ),
                    message: f[4],
                },
            },
        )
    }
}

/// What one line denotes when read as a command result record.
pub open spec fn parse_result_spec(line: Seq<char>) -> Option<ResultEventV> {
    parse_result_fields(split_on(line, '|'))
}

/// The canonical decimal text of any number can stand as one field.
pub(crate) proof fn lemma_digits_field_safe(n: nat)
    ensures
        field_safe(dec_digits(n)),
{
    lemma_dec_digits_are_digits(n);
    assert forall|i: int|
        0 <= i < dec_digits(n).len() implies #[trigger] dec_digits(n)[i] != '|' && dec_digits(
        n,
    )[i] != '\n' by {
        assert(is_digit_char(dec_digits(n)[i]));
    }
}

/// Encodes a command envelope as one wire line, terminator not included;
/// the line itself never holds a terminator, whatever the payload holds.
pub fn encode_command(e: &CommandEnvelope) -> (r: String)
    ensures
        r@ == encode_envelope_spec(e@),
        b64_round_trips(e@.payload_json),
        forall|i: int| 0 <= i < r@.len() ==> r@[i] != '\n',
{
    let mut s = String::new();
    s.append("C");
    let id_text = u64_to_dec(e.command_id);
    push_field(&mut s, id_text.as_str());
    let command_text = u64_to_dec(e.command.code as u64);
    push_field(&mut s, command_text.as_str());
    let domain_text = u64_to_dec(e.domain.code() as u64);
    push_field(&mut s, domain_text.as_str());
    let priority_text = u64_to_dec(e.priority.code() as u64);
    push_field(&mut s, priority_text.as_str());
    let authority_text = u64_to_dec(e.authority.code() as u64);
    push_field(&mut s, authority_text.as_str());
    let issued_text = u64_to_dec(e.issued_ns);
    push_field(&mut s, issued_text.as_str());
    let ttl_text = u64_to_dec(e.ttl_ns);
    push_field(&mut s, ttl_text.as_str());
    let payload_text = b64_encode_text(e.payload_json.as_str());
    push_field(&mut s, payload_text.as_str());
    proof {
        reveal_strlit("C");
        let f1 = seq![seq!['C']];
        assert(join_on(f1, '|') == seq!['C']);
        let f2 = f1.push(dec_digits(e@.command_id as nat));
        lemma_join_push(f1, dec_digits(e@.command_id as nat), '|');
        let f3 = f2.push(dec_digits(e@.command.code as nat));
        lemma_join_push(f2, dec_digits(e@.command.code as nat), '|');
        let f4 = f3.push(dec_digits(e@.domain.spec_code() as nat));
        lemma_join_push(f3, dec_digits(e@.domain.spec_code() as nat), '|');
        let f5 = f4.push(dec_digits(e@.priority.spec_code() as nat));
        lemma_join_push(f4, dec_digits(e@.priority.spec_code() as nat), '|');
        let f6 = f5.push(dec_digits(e@.authority.spec_code() as nat));
        lemma_join_push(f5, dec_digits(e@.authority.spec_code() as nat), '|');
        let f7 = f6.push(dec_digits(e@.issued_ns as nat));
        lemma_join_push(f6, dec_digits(e@.issued_ns as nat), '|');
        let f8 = f7.push(dec_digits(e@.ttl_ns as nat));
        lemma_join_push(f7, dec_digits(e@.ttl_ns as nat), '|');
        let f9 = f8.push(b64_of(e@.payload_json));
        lemma_join_push(f8, b64_of(e@.payload_json), '|');
        assert(f9 =~~= envelope_fields(e@));
        assert("C"@ =~= seq!['C']);
        assert(s@ == join_on(f9, '|'));
        let ef = envelope_fields(e@);
        lemma_digits_field_safe(e@.command_id as nat);
        lemma_digits_field_safe(e@.command.code as nat);
        lemma_digits_field_safe(e@.domain.spec_code() as nat);
        lemma_digits_field_safe(e@.priority.spec_code() as nat);
        lemma_digits_field_safe(e@.authority.spec_code() as nat);
        lemma_digits_field_safe(e@.issued_ns as nat);
        lemma_digits_field_safe(e@.ttl_ns as nat);
        assert forall|k: int, i: int|
            0 <= k < ef.len() && 0 <= i < ef[k].len() implies #[trigger] ef[k][i] != '\n' by {
            if k == 0 {
                assert(ef[k][i] == 'C');
            } else if k == 8 {
                assert(field_safe(ef[8]));
            } else {
                assert(field_safe(ef[k]));
            }
        }
        crate::fields::lemma_join_no_newline(ef);
    }
    s
}

/// Encodes a command result event as one wire line, terminator not
/// included. A message holding a pipe or a newline corrupts its line, as
/// the round-trip law's premise records.
pub fn encode_result(ev: &CommandResultEvent) -> (r: String)
    ensures
        r@ == encode_result_spec(ev@),
{
    let mut s = String::new();
    s.append("R");
    let id_text = u64_to_dec(ev.command_id);
    push_field(&mut s, id_text.as_str());
    let status_text = u64_to_dec(ev.result.status.code() as u64);
    push_field(&mut s, status_text.as_str());
    let reject_text = u64_to_dec(ev.result.reject_reason.code() as u64);
    push_field(&mut s, reject_text.as_str());
    push_field(&mut s, ev.result.message.as_str());
    proof {
        reveal_strlit("R");
        let f1 = seq![seq!['R']];
        assert(join_on(f1, '|') == seq!['R']);
        let f2 = f1.push(dec_digits(ev@.command_id as nat));
        lemma_join_push(f1, dec_digits(ev@.command_id as nat), '|');
        let f3 = f2.push(dec_digits(ev@.result.status.spec_code() as nat));
        lemma_join_push(f2, dec_digits(ev@.result.status.spec_code() as nat), '|');
        let f4 = f3.push(dec_digits(ev@.result.reject_reason.spec_code() as nat));
        lemma_join_push(f3, dec_digits(ev@.result.reject_reason.spec_code() as nat), '|');
        let f5 = f4.push(ev@.result.message);
        lemma_join_push(f4, ev@.result.message, '|');
        assert(f5 =~~= result_fields(ev@));
        assert("R"@ =~= seq!['R']);
        assert(s@ == join_on(f5, '|'));
    }
    s
}

/// Reads one line as a command record; `None` exactly on the lines the
/// wire meaning assigns no command to.
pub fn parse_command_line(line: &str) -> (r: Option<CommandEnvelope>)
    ensures
        match r {
            Some(env) => parse_command_spec(line@) == Some(env@),
            None => parse_command_spec(line@) is None,
        },
{
    let fields = split_fields(line);
    let ghost f = split_on(line@, '|');
    proof {
        assert(views_of(fields@) == f);
        assert(fields@.len() == f.len());
    }
    if fields.len() != 9 {
        return None;
    }
    if fields[0].as_str().unicode_len() != 1 || fields[0].as_str().get_char(0) != 'C' {
        proof {
            assert(f[0] == fields@[0]@);
            assert(f[0] != seq!['C']);
        }
        return None;
    }
    proof {
        assert(f[0] =~= seq!['C']);
    }
    let command_id = match parse_u64(fields[1].as_str()) {
        Some(v) => v,
        None => {
            return None;
        },
    };
    let command_code = match parse_u64(fields[2].as_str()) {
        Some(v) => v,
        None => {
            return None;
        },
    };
    if command_code > 65535 {
        return None;
    }
    let domain_code = match parse_u64(fields[3].as_str()) {
        Some(v) => v,
        None => {
            return None;
        },
    };
    if domain_code > 65535 {
        return None;
    }
    let priority_code = match parse_u64(fields[4].as_str()) {
        Some(v) => v,
        None => {
            return None;
        },
    };
    if priority_code > 65535 {
        return None;
    }
    let authority_code = match parse_u64(fields[5].as_str()) {
        Some(v) => v,
        None => {
            return None;
        },
    };
    if authority_code > 65535 {
        return None;
    }
    let domain = match CommandDomain::from_code(domain_code as u16) {
        Some(d) => d,
        None => {
            return None;
        },
    };
    let priority = match CommandPriority::from_code(priority_code as u16) {
        Some(p) => p,
        None => {
            return None;
        },
    };
    let authority = match CommandAuthority::from_code(authority_code as u16) {
        Some(a) => a,
        None => {
            return None;
        },
    };
    let issued_ns = match parse_u64(fields[6].as_str()) {
        Some(v) => v,
        None => {
            return None;
        },
    };
    let ttl_ns = match parse_u64(fields[7].as_str()) {
        Some(v) => v,
        None => {
            return None;
        },
    };
    let payload_json = match b64_decode_text(fields[8].as_str()) {
        Some(p) => p,
        None => {
            return None;
        },
    };
    let env = CommandEnvelope {
        command: UgvCommand { code: command_code as u16 },
        domain,
        priority,
        authority,
        command_id,
        issued_ns,
        ttl_ns,
        payload_json,
    };
    Some(env)
}

/// Reads one line as a command result record; `None` exactly on the lines
/// the wire meaning assigns no result to.
pub fn parse_result_line(line: &str) -> (r: Option<CommandResultEvent>)
    ensures
        match r {
            Some(ev) => parse_result_spec(line@) == Some(ev@),
            None => parse_result_spec(line@) is None,
        },
{
    let fields = split_fields(line);
    let ghost f = split_on(line@, '|');
    proof {
        assert(views_of(fields@) == f);
        assert(fields@.len() == f.len());
    }
    if fields.len() != 5 {
        return None;
    }
    if fields[0].as_str().unicode_len() != 1 || fields[0].as_str().get_char(0) != 'R' {
        proof {
            assert(f[0] == fields@[0]@);
            assert(f[0] != seq!['R']);
        }
        return None;
    }
    proof {
        assert(f[0] =~= seq!['R']);
    }
    let command_id = match parse_u64(fields[1].as_str()) {
        Some(v) => v,
        None => {
            return None;
        },
    };
    let status_code = match parse_u64(fields[2].as_str()) {
        Some(v) => v,
        None => {
            return None;
        },
    };
    if status_code > 65535 {
        return None;
    }
    let reject_code = match parse_u64(fields[3].as_str()) {
        Some(v) => v,
        None => {
            return None;
        },
    };
    if reject_code > 65535 {
        return None;
    }
    let status = CommandStatus::from_code(status_code as u16);
    let reject_reason = RejectReason::from_code(reject_code as u16);
    let message = fields[4].clone();
    let ev = CommandResultEvent {
        command_id,
        result: CommandResult { status, reject_reason, message },
    };
    proof {
        assert(ev@.result.message == f[4]);
    }
    Some(ev)
}

/// Law: decoding an encoded command line restores the envelope field for
/// field, whatever the payload holds. The premise states the base64 facts
/// that hold of every encoded payload; `encode_command` establishes them.
pub proof fn lemma_command_round_trip(e: EnvelopeV)
    requires
        b64_round_trips(e.payload_json),
    ensures
        parse_command_spec(encode_envelope_spec(e)) == Some(e),
{
    let f = envelope_fields(e);
    lemma_digits_field_safe(e.command_id as nat);
    lemma_digits_field_safe(e.command.code as nat);
    lemma_digits_field_safe(e.domain.spec_code() as nat);
    lemma_digits_field_safe(e.priority.spec_code() as nat);
    lemma_digits_field_safe(e.authority.spec_code() as nat);
    lemma_digits_field_safe(e.issued_ns as nat);
    lemma_digits_field_safe(e.ttl_ns as nat);
    assert forall|k: int, i: int|
        0 <= k < f.len() && 0 <= i < f[k].len() implies #[trigger] f[k][i] != '|' by {
        if k == 0 {
            assert(f[k][i] == 'C');
        } else if k == 8 {
            assert(field_safe(f[8]));
        } else {
            assert(field_safe(f[k]));
        }
    }
    lemma_split_join(f, '|');
    lemma_parse_dec_digits(e.command_id);
    lemma_parse_dec_digits(e.command.code as u64);
    lemma_parse_dec_digits(e.domain.spec_code() as u64);
    lemma_parse_dec_digits(e.priority.spec_code() as u64);
    lemma_parse_dec_digits(e.authority.spec_code() as u64);
    lemma_parse_dec_digits(e.issued_ns);
    lemma_parse_dec_digits(e.ttl_ns);
    lemma_domain_code_round_trip(e.domain);
    lemma_priority_code_round_trip(e.priority);
    lemma_authority_code_round_trip(e.authority);
    assert(parse_command_fields(f) == Some(e));
}

/// Law: decoding an encoded command result line restores the event field
/// for field, for every message that can stand as a field (one holding a
/// pipe or a newline never leaves `encode_result` as a single intact
/// line).
pub proof fn lemma_result_round_trip(ev: ResultEventV)
    requires
        field_safe(ev.result.message),
    ensures
        parse_result_spec(encode_result_spec(ev)) == Some(ev),
{
    let f = result_fields(ev);
    lemma_digits_field_safe(ev.command_id as nat);
    lemma_digits_field_safe(ev.result.status.spec_code() as nat);
    lemma_digits_field_safe(ev.result.reject_reason.spec_code() as nat);
    assert forall|k: int, i: int|
        0 <= k < f.len() && 0 <= i < f[k].len() implies #[trigger] f[k][i] != '|' by {
        if k == 0 {
            assert(f[k][i] == 'R');
        } else {
            assert(field_safe(f[k]));
        }
    }
    lemma_split_join(f, '|');
    lemma_parse_dec_digits(ev.command_id);
    lemma_parse_dec_digits(ev.result.status.spec_code() as u64);
    lemma_parse_dec_digits(ev.result.reject_reason.spec_code() as u64);
    lemma_status_code_round_trip(ev.result.status);
    lemma_reject_code_round_trip(ev.result.reject_reason);
    assert(parse_result_fields(f) == Some(ev));
}

} // verus!
