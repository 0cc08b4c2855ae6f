//! Decoding the manager daemon's unit-file listing.
//!
//! The listing arrives as one bracketed text: an outer framing of fixed
//! width wraps a comma-separated run of tokens, which alternate between a
//! quoted unit-file path and a quoted state text.  Decoding strips the
//! framing, splits on commas, and consumes the tokens two at a time; each
//! pair yields one unit record.  The decoded listing is sorted
//! case-insensitively by unit name before it is returned.  A reply whose
//! token counts do not match this framing fails loudly: no unit-file data
//! is ever dropped silently.

use vstd::prelude::*;
use crate::text::before_char;
use crate::text::quoted_field;
use crate::text::file_name_part;
use crate::text::skip_front;
use crate::text::split_on;
use crate::text::split_str;
use crate::text::tail_after;
use crate::units::SystemdUnit;
use crate::units::UnitState;
use crate::units::UnitType;
use crate::units::unit_state_of;
use crate::units::unit_type_of;
use crate::sorting::sort_units;
use crate::sorting::sorted_units;

verus! {

/// Width of the outer framing before the payload.
pub const FRAME_PREFIX: usize = 7;

/// Width of the outer framing after the payload.
pub const FRAME_SUFFIX: usize = 10;

/// Framing characters before the quoted path inside a path token.
pub const PATH_FIELD_SKIP: usize = 14;

/// Framing characters before the quoted state text inside a state token.
pub const STATE_FIELD_SKIP: usize = 6;

/// The reply is long enough to carry its outer framing.
pub open spec fn framed(input: Seq<char>) -> bool {
    input.len() >= FRAME_PREFIX + FRAME_SUFFIX
}

/// The payload between the outer framing.
pub open spec fn payload_of(input: Seq<char>) -> Seq<char> {
    input.subrange(FRAME_PREFIX as int, input.len() - FRAME_SUFFIX)
}

/// The comma-separated tokens of the payload.
pub open spec fn tokens_of(input: Seq<char>) -> Seq<Seq<char>> {
    split_on(payload_of(input), ',')
}

/// How many complete (path, state) pairs the tokens form; a trailing
/// unpaired token is not consumed.
pub open spec fn pair_count(input: Seq<char>) -> nat {
    tokens_of(input).len() / 2
}

/// The path token of pair `k`.
pub open spec fn path_token_at(input: Seq<char>, k: int) -> Seq<char> {
    tokens_of(input)[2 * k]
}

/// The state token of pair `k`.
pub open spec fn state_token_at(input: Seq<char>, k: int) -> Seq<char> {
    tokens_of(input)[2 * k + 1]
}

/// The bare path inside a path token: drop the fixed framing, then take
/// everything up to the closing quote.
pub open spec fn path_of_token(tok: Seq<char>) -> Seq<char> {
    before_char(skip_front(tok, PATH_FIELD_SKIP as nat), '"')
}

/// The bare state text inside a state token.
pub open spec fn state_text_of_token(tok: Seq<char>) -> Seq<char> {
    before_char(skip_front(tok, STATE_FIELD_SKIP as nat), '"')
}

/// Pair `k` names a unit file: its path has a non-empty final segment.
pub open spec fn pair_named(input: Seq<char>, k: int) -> bool {
    tail_after(path_of_token(path_token_at(input, k)), '/').len() > 0
}

/// A trailing unpaired token that carries no unit-file data and may be
/// tolerated: the bare remnant of an empty listing's array, or nothing.
pub open spec fn benign_remnant(tok: Seq<char>) -> bool {
    tok.len() == 0 || tok == "[]"@
}

/// The tokens pair up completely: an odd count is tolerated only when
/// the leftover token is a benign remnant, so no unit-file data is ever
/// dropped silently.
pub open spec fn pairs_complete(input: Seq<char>) -> bool {
    tokens_of(input).len() % 2 == 0 || benign_remnant(tokens_of(input).last())
}

/// The whole reply decodes: it carries its framing, its tokens pair up
/// completely, and every pair names a unit file.
pub open spec fn decode_ok(input: Seq<char>) -> bool {
    &&& framed(input)
    &&& pairs_complete(input)
    &&& forall|k: int| 0 <= k < pair_count(input) ==> #[trigger] pair_named(input, k)
}

/// `u` is the unit record decoded from pair `k` of the reply.
pub open spec fn unit_at_ok(input: Seq<char>, u: SystemdUnit, k: int) -> bool {
    let p = path_of_token(path_token_at(input, k));
    &&& u.path@ == p
    &&& u.name@ == tail_after(p, '/')
    &&& u.utype == unit_type_of(p)
    &&& u.state == unit_state_of(state_text_of_token(state_token_at(input, k)))
}

/// `units` is exactly the decoded listing, pair by pair and in reply order.
pub open spec fn decodes_to(input: Seq<char>, units: Seq<SystemdUnit>) -> bool {
    &&& units.len() == pair_count(input)
    &&& forall|k: int| 0 <= k < units.len() ==> unit_at_ok(input, #[trigger] units[k], k)
}

pub open spec fn truncated_message() -> Seq<char> {
    "unit file listing reply is shorter than its framing"@
}

pub open spec fn unpaired_message() -> Seq<char> {
    "unit file listing reply ends with an unpaired token"@
}

pub open spec fn unnamed_message() -> Seq<char> {
    "unit file listing reply holds a unit path with no file name"@
}

/// The error text a malformed reply decodes to.
pub open spec fn decode_error_text(input: Seq<char>) -> Seq<char> {
    if !framed(input) {
        truncated_message()
    } else if !pairs_complete(input) {
        unpaired_message()
    } else {
        unnamed_message()
    }
}

/// Every record of a decoded listing is well formed: its name is the
/// non-empty final segment of its path, and its type agrees with the
/// path's extension.
pub proof fn lemma_decoded_units_wf(input: Seq<char>, units: Seq<SystemdUnit>)
    requires
        decode_ok(input),
        decodes_to(input, units),
    ensures
        forall|k: int| 0 <= k < units.len() ==> (#[trigger] units[k]).wf(),
{
    assert forall|k: int| 0 <= k < units.len() implies (#[trigger] units[k]).wf() by {
        assert(unit_at_ok(input, units[k], k));
        assert(pair_named(input, k));
    }
}

/// Decode the raw listing reply into unit records, in reply order.
///
/// A reply too short for its framing, one whose tokens do not pair up,
/// or one that names a unit file with an empty final path segment, is
/// rejected with a descriptive error rather than a partial listing.
fn decode_pairs(input: &str) -> (r: Result<Vec<SystemdUnit>, String>)
    ensures
        match r {
            Ok(units) => decode_ok(input@) && decodes_to(input@, units@),
            Err(e) => !decode_ok(input@) && e@ == decode_error_text(input@),
        },
{
    let n = input.unicode_len();
    if n < FRAME_PREFIX + FRAME_SUFFIX {
        return Err(String::from_str("unit file listing reply is shorter than its framing"));
    }
    let payload = input.substring_char(FRAME_PREFIX, n - FRAME_SUFFIX);
    proof {
        assert(payload@ == payload_of(input@));
    }
    let toks = split_str(payload, ',');
    let ghost tseq = tokens_of(input@);
    let m = toks.len();
    if m % 2 == 1 {
        let last_len = toks[m - 1].as_str().unicode_len();
        let benign = if last_len == 0 {
            true
        } else if last_len == 2 {
            toks[m - 1].as_str().get_char(0) == '[' && toks[m - 1].as_str().get_char(1) == ']'
        } else {
            false
        };
        proof {
            reveal_strlit("[]");
            assert(toks@.map_values(|t: String| t@)[m - 1] == toks@[m - 1]@);
            assert(tseq.last() == toks@[m - 1]@);
            if benign && last_len == 2 {
                assert(toks@[m - 1]@ =~= "[]"@);
            }
            assert(benign == benign_remnant(tseq.last()));
        }
        if !benign {
            return Err(String::from_str("unit file listing reply ends with an unpaired token"));
        }
    }
    proof {
        assert(pairs_complete(input@));
    }
    let mut units: Vec<SystemdUnit> = Vec::new();
    let mut i: usize = 0;
    while i + 1 < toks.len()
        invariant
            toks@.map_values(|t: String| t@) == tseq,
            tseq == tokens_of(input@),
            framed(input@),
            pairs_complete(input@),
            i <= toks.len(),
            units@.len() * 2 == i,
            forall|k: int| 0 <= k < units@.len() ==> unit_at_ok(input@, #[trigger] units@[k], k),
            forall|k: int| 0 <= k < units@.len() ==> #[trigger] pair_named(input@, k),
        decreases toks@.len() - i,
    {
        let ghost k = units@.len() as int;
        proof {
            assert(toks@.map_values(|t: String| t@)[i as int] == toks@[i as int]@);
            assert(toks@.map_values(|t: String| t@)[i + 1] == toks@[i + 1]@);
            assert(path_token_at(input@, k) == toks@[i as int]@);
            assert(state_token_at(input@, k) == toks@[i + 1]@);
        }
        let path = quoted_field(toks[i].as_str(), PATH_FIELD_SKIP);
        let name_part = file_name_part(path.as_str());
        if name_part.unicode_len() == 0 {
            proof {
                assert(!pair_named(input@, k));
                assert(2 * k + 1 < tseq.len());
                assert(k < pair_count(input@));
            }
            return Err(
                String::from_str("unit file listing reply holds a unit path with no file name"),
            );
        }
        let state_text = quoted_field(toks[i + 1].as_str(), STATE_FIELD_SKIP);
        let utype = UnitType::new(path.as_str());
        let state = UnitState::new(state_text.as_str());
        let name = String::from_str(name_part);
        let unit = SystemdUnit { name, path, utype, state };
        proof {
            assert(unit_at_ok(input@, unit, k));
            assert(pair_named(input@, k));
        }
        units.push(unit);
        i = i + 2;
    }
    proof {
        assert(i == toks@.len() || i + 1 == toks@.len());
        assert(units@.len() == pair_count(input@));
    }
    Ok(units)
}

/// Decode the raw listing reply and sort the unit records
/// case-insensitively by name before returning them: the result is a
/// sorted permutation of the decoded listing.  Malformed replies are
/// rejected as in `decode_pairs`.
pub fn parse_message(input: &str) -> (r: Result<Vec<SystemdUnit>, String>)
    ensures
        match r {
            Ok(units) => {
                &&& decode_ok(input@)
                &&& sorted_units(units@)
                &&& exists|raw: Seq<SystemdUnit>|
                    #[trigger] decodes_to(input@, raw) && units@.to_multiset() == raw.to_multiset()
            },
            Err(e) => !decode_ok(input@) && e@ == decode_error_text(input@),
        },
{
    match decode_pairs(input) {
        Ok(mut units) => {
            let ghost raw = units@;
            sort_units(&mut units);
            proof {
                assert(decodes_to(input@, raw) && units@.to_multiset() == raw.to_multiset());
            }
            Ok(units)
        },
        Err(e) => Err(e),
    }
}

/// The listing operation as it looks once the bus round trip is done:
/// decode the raw reply and hand back the unit records sorted
/// case-insensitively by name.
pub fn list_unit_files(reply: &str) -> (r: Result<Vec<SystemdUnit>, String>)
    ensures
        match r {
            Ok(units) => {
                &&& decode_ok(reply@)
                &&& sorted_units(units@)
                &&& exists|raw: Seq<SystemdUnit>|
                    #[trigger] decodes_to(reply@, raw) && units@.to_multiset() == raw.to_multiset()
            },
            Err(e) => !decode_ok(reply@) && e@ == decode_error_text(reply@),
        },
{
    parse_message(reply)
}

} // verus!
