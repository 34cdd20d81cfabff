//! The masking engine: a pure transform of one column value under a rule.

use crate::model::{ColumnConfig, MaskRule, MaskRuleType, MaskRuleView};
use crate::text::digit_char;
use sha2::{Digest, Sha256};
use vstd::prelude::*;
use vstd::string::StringSliceAdditionalSpecFns;
use vstd::utf8::encode_utf8;

verus! {

/// The SHA-256 digest of a byte string.
pub uninterp spec fn sha256(data: Seq<u8>) -> Seq<u8>;

/// `sha2::Sha256::digest`: the digest of `data`, which is the same for the
/// same bytes and always 32 bytes long.
#[verifier::external_body]
fn sha256_digest(data: &[u8]) -> (out: Vec<u8>)
    ensures
        out@ == sha256(data@),
        out@.len() == 32,
{
    Sha256::digest(data).to_vec()
}

/// The lower-case hexadecimal digit for a value below sixteen.
pub open spec fn hex_digit(n: int) -> char {
    if n < 10 {
        digit_char(n)
    } else if n == 10 {
        'a'
    } else if n == 11 {
        'b'
    } else if n == 12 {
        'c'
    } else if n == 13 {
        'd'
    } else if n == 14 {
        'e'
    } else {
        'f'
    }
}

/// Whether `c` is one of the sixteen lower-case hexadecimal digits.
pub open spec fn is_lower_hex(c: char) -> bool {
    c == '0' || c == '1' || c == '2' || c == '3' || c == '4' || c == '5' || c == '6' || c == '7'
        || c == '8' || c == '9' || c == 'a' || c == 'b' || c == 'c' || c == 'd' || c == 'e' || c
        == 'f'
}

/// The bytes in lower-case hexadecimal, two digits each, high digit first.
pub open spec fn hex(bytes: Seq<u8>) -> Seq<char>
    decreases bytes.len(),
{
    if bytes.len() == 0 {
        Seq::empty()
    } else {
        hex(bytes.drop_last()).push(hex_digit(bytes.last() as int / 16)).push(
            hex_digit(bytes.last() as int % 16),
        )
    }
}

/// Hexadecimal text has two digits per byte and holds nothing but
/// lower-case hexadecimal digits.
pub proof fn lemma_hex_shape(bytes: Seq<u8>)
    ensures
        hex(bytes).len() == 2 * bytes.len(),
        forall|i: int| 0 <= i < hex(bytes).len() ==> is_lower_hex(#[trigger] hex(bytes)[i]),
    decreases bytes.len(),
{
    if bytes.len() > 0 {
        lemma_hex_shape(bytes.drop_last());
        let hi = bytes.last() as int / 16;
        let lo = bytes.last() as int % 16;
        assert(0 <= hi < 16 && 0 <= lo < 16);
        assert(is_lower_hex(hex_digit(hi)));
        assert(is_lower_hex(hex_digit(lo)));
    }
}

fn hex_char(n: u8) -> (c: char)
    requires
        n < 16,
    ensures
        c == hex_digit(n as int),
{
    if n == 0 {
        '0'
    } else if n == 1 {
        '1'
    } else if n == 2 {
        '2'
    } else if n == 3 {
        '3'
    } else if n == 4 {
        '4'
    } else if n == 5 {
        '5'
    } else if n == 6 {
        '6'
    } else if n == 7 {
        '7'
    } else if n == 8 {
        '8'
    } else if n == 9 {
        '9'
    } else if n == 10 {
        'a'
    } else if n == 11 {
        'b'
    } else if n == 12 {
        'c'
    } else if n == 13 {
        'd'
    } else if n == 14 {
        'e'
    } else {
        'f'
    }
}

/// The bytes in lower-case hexadecimal.
pub fn hex_string(bytes: &Vec<u8>) -> (out: String)
    ensures
        out@ == hex(bytes@),
{
    let mut out = String::new();
    let mut i: usize = 0;
    while i < bytes.len()
        invariant
            i <= bytes.len(),
            out@ == hex(bytes@.take(i as int)),
        decreases bytes.len() - i,
    {
        let b = bytes[i];
        proof {
            let t = bytes@.take(i + 1);
            assert(t.drop_last() =~= bytes@.take(i as int));
            assert(t.last() == b);
        }
        out.push(hex_char(b / 16));
        out.push(hex_char(b % 16));
        i += 1;
    }
    proof {
        assert(bytes@.take(bytes.len() as int) =~= bytes@);
    }
    out
}

/// The template applied to the value, left to right: `#` takes the next
/// character of the value and copies it, `*` takes the next character and
/// gives `*`, and either gives nothing once the value is used up; any other
/// template character stands for itself and takes nothing.
pub open spec fn pattern_mask(value: Seq<char>, template: Seq<char>) -> Seq<char>
    decreases template.len(),
{
    if template.len() == 0 {
        Seq::empty()
    } else {
        let p = template[0];
        let rest = template.drop_first();
        if p == '#' || p == '*' {
            if value.len() == 0 {
                pattern_mask(value, rest)
            } else {
                seq![if p == '#' { value[0] } else { '*' }] + pattern_mask(value.drop_first(), rest)
            }
        } else {
            seq![p] + pattern_mask(value, rest)
        }
    }
}

/// What a rule makes of a value. A fixed rule without a replacement gives
/// four asterisks; a pattern rule without a template leaves the value alone.
pub open spec fn masked(value: Seq<char>, rule: MaskRuleView) -> Seq<char> {
    match rule.rule_type {
        MaskRuleType::Hash => hex(sha256(encode_utf8(value))),
        MaskRuleType::Fixed => match rule.pattern {
            Some(replacement) => replacement,
            None => "****"@,
        },
        MaskRuleType::Pattern => match rule.pattern {
            Some(template) => pattern_mask(value, template),
            None => value,
        },
    }
}

/// The template applied to the value.
pub fn apply_pattern(value: &str, template: &str) -> (out: String)
    ensures
        out@ == pattern_mask(value@, template@),
{
    let input = crate::text::to_chars(value);
    let slots = crate::text::to_chars(template);
    let mut out = String::new();
    let mut taken: usize = 0;
    let mut j: usize = 0;
    proof {
        assert(value@.skip(0) =~= value@);
        assert(template@.skip(0) =~= template@);
        assert(out@ + pattern_mask(value@, template@) =~= pattern_mask(value@, template@));
    }
    while j < slots.len()
        invariant
            j <= slots.len(),
            taken <= input.len(),
            input@ == value@,
            slots@ == template@,
            out@ + pattern_mask(value@.skip(taken as int), template@.skip(j as int))
                == pattern_mask(value@, template@),
        decreases slots.len() - j,
    {
        let p = slots[j];
        proof {
            assert(template@.skip(j as int).drop_first() =~= template@.skip(j + 1));
            assert(template@.skip(j as int)[0] == p);
            if taken < input.len() {
                assert(value@.skip(taken as int).drop_first() =~= value@.skip(taken + 1));
                assert(value@.skip(taken as int)[0] == input@[taken as int]);
            }
        }
        let ghost before = out@;
        let ghost tail = pattern_mask(value@.skip(taken as int), template@.skip(j as int));
        if p == '#' || p == '*' {
            if taken < input.len() {
                let c = if p == '#' {
                    input[taken]
                } else {
                    '*'
                };
                out.push(c);
                taken += 1;
                proof {
                    let next = pattern_mask(value@.skip(taken as int), template@.skip(j + 1));
                    assert(tail == seq![c] + next);
                    assert(out@ + next =~= before + tail);
                }
            }
        } else {
            out.push(p);
            proof {
                let next = pattern_mask(value@.skip(taken as int), template@.skip(j + 1));
                assert(tail == seq![p] + next);
                assert(out@ + next =~= before + tail);
            }
        }
        j += 1;
    }
    proof {
        assert(template@.skip(slots.len() as int).len() == 0);
        assert(out@ + Seq::<char>::empty() =~= out@);
    }
    out
}

/// Applies a masking rule to one value. Under `Hash` the result is the
/// digest of the value's UTF-8 bytes in hexadecimal: 64 lower-case digits,
/// and determined by the value.
pub fn apply_mask_rule(value: &str, rule: &MaskRule) -> (out: String)
    ensures
        out@ == masked(value@, rule@),
        rule.rule_type == MaskRuleType::Hash ==> out@.len() == 64 && forall|i: int|
            0 <= i < 64 ==> is_lower_hex(#[trigger] out@[i]),
{
    match rule.rule_type {
        MaskRuleType::Hash => {
            let digest = sha256_digest(value.as_bytes());
            proof {
                lemma_hex_shape(digest@);
            }
            hex_string(&digest)
        },
        MaskRuleType::Fixed => match &rule.pattern {
            Some(replacement) => replacement.clone(),
            None => "****".to_owned(),
        },
        MaskRuleType::Pattern => match &rule.pattern {
            Some(template) => apply_pattern(value, template.as_str()),
            None => value.to_owned(),
        },
    }
}

/// What the rules of the columns make of one row: the value at each
/// position under the rule of the column at that position, and unchanged
/// where there is no such column or it has no rule.
pub open spec fn masked_row(columns: Seq<ColumnConfig>, row: Seq<String>) -> Seq<Seq<char>> {
    Seq::new(
        row.len(),
        |i: int|
            if i < columns.len() && columns[i].mask_rule is Some {
                masked(row[i]@, columns[i].mask_rule->Some_0@)
            } else {
                row[i]@
            },
    )
}

/// Applies the rules of the columns to one row.
pub fn mask_row(columns: &Vec<ColumnConfig>, row: &Vec<String>) -> (out: Vec<String>)
    ensures
        crate::text::texts(out@) == masked_row(columns@, row@),
{
    let mut out: Vec<String> = Vec::new();
    let mut i: usize = 0;
    while i < row.len()
        invariant
            i <= row.len(),
            out@.len() == i,
            forall|k: int| 0 <= k < i ==> #[trigger] out@[k]@ == masked_row(columns@, row@)[k],
        decreases row.len() - i,
    {
        let value = if i < columns.len() {
            match &columns[i].mask_rule {
                Some(rule) => apply_mask_rule(row[i].as_str(), rule),
                None => row[i].clone(),
            }
        } else {
            row[i].clone()
        };
        out.push(value);
        i += 1;
    }
    proof {
        assert(crate::text::texts(out@) =~= masked_row(columns@, row@));
    }
    out
}

} // verus!
