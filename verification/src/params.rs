//! Parsing of CSI parameter strings: the accumulated bytes between `ESC[`
//! and the command byte. SGR takes the `;`-separated numeric parameters;
//! erase-display and cursor-forward read the whole accumulator as one number.
//! A component that is empty, non-numeric or too large for its target type
//! parses as nothing, matching lenient decimal parsing.

use vstd::prelude::*;

verus! {

/// An ASCII decimal digit byte.
pub open spec fn is_digit_byte(b: u8) -> bool {
    0x30 <= b && b <= 0x39
}

pub open spec fn all_digit_bytes(s: Seq<u8>) -> bool {
    forall|i: int| 0 <= i < s.len() ==> is_digit_byte(#[trigger] s[i])
}

/// The numeric value of a digit-byte string, most significant first.
pub open spec fn digits_val(s: Seq<u8>) -> int
    decreases s.len(),
{
    if s.len() == 0 {
        0
    } else {
        digits_val(s.drop_last()) * 10 + (s.last() - 0x30)
    }
}

pub proof fn lemma_digits_val_nonneg(s: Seq<u8>)
    requires
        all_digit_bytes(s),
    ensures
        digits_val(s) >= 0,
    decreases s.len(),
{
    if s.len() > 0 {
        assert(all_digit_bytes(s.drop_last())) by {
            assert(forall|i: int| 0 <= i < s.len() - 1 ==> s.drop_last()[i] == s[i]);
        }
        lemma_digits_val_nonneg(s.drop_last());
    }
}

/// A digit-string's value only grows as more digits follow.
pub proof fn lemma_digits_val_prefix(s: Seq<u8>, i: int)
    requires
        all_digit_bytes(s),
        0 <= i <= s.len(),
    ensures
        digits_val(s.take(i)) <= digits_val(s),
    decreases s.len(),
{
    if i < s.len() {
        let d = s.drop_last();
        assert(all_digit_bytes(d)) by {
            assert(forall|j: int| 0 <= j < d.len() ==> d[j] == s[j]);
        }
        assert(s.take(i) =~= d.take(i));
        lemma_digits_val_prefix(d, i);
        lemma_digits_val_nonneg(d);
    } else {
        assert(s.take(i) =~= s);
    }
}

/// The value of a digit string, if it is non-empty, all digits, and at most
/// `cap`; nothing otherwise.
pub open spec fn parse_capped_spec(s: Seq<u8>, cap: u32) -> Option<u32> {
    if s.len() > 0 && all_digit_bytes(s) && digits_val(s) <= cap {
        Some(digits_val(s) as u32)
    } else {
        None
    }
}

/// Parse a decimal byte string, failing on a non-digit, an empty string, or
/// a value above `cap`.
pub fn parse_capped(s: &[u8], cap: u32) -> (r: Option<u32>)
    ensures
        r == parse_capped_spec(s@, cap),
{
    if s.len() == 0 {
        return None;
    }
    let mut acc: u32 = 0;
    let mut i: usize = 0;
    while i < s.len()
        invariant
            0 < s@.len(),
            0 <= i <= s@.len(),
            all_digit_bytes(s@.take(i as int)),
            acc == digits_val(s@.take(i as int)),
            acc <= cap,
        decreases s@.len() - i,
    {
        let b = s[i];
        if !(0x30 <= b && b <= 0x39) {
            proof {
                assert(!all_digit_bytes(s@));
            }
            return None;
        }
        let next: u64 = acc as u64 * 10 + (b - 0x30) as u64;
        proof {
            assert(s@.take(i + 1).drop_last() =~= s@.take(i as int));
            assert(s@.take(i + 1).last() == b);
            assert(all_digit_bytes(s@.take(i + 1)));
            assert(next == digits_val(s@.take(i + 1)));
        }
        if next > cap as u64 {
            proof {
                if all_digit_bytes(s@) && digits_val(s@) <= cap {
                    lemma_digits_val_prefix(s@, i + 1);
                }
            }
            return None;
        }
        acc = next as u32;
        i = i + 1;
    }
    proof {
        assert(s@.take(i as int) =~= s@);
    }
    Some(acc)
}

/// The contribution of one `;`-separated component to the SGR parameter
/// list: its value if it parses as an unsigned 16-bit number, else nothing.
pub open spec fn component_params(c: Seq<u8>) -> Seq<u16> {
    match parse_capped_spec(c, 65535) {
        Some(v) => seq![v as u16],
        None => Seq::empty(),
    }
}

/// The SGR parameter list of an accumulator string: split on `;`, parse each
/// component, drop the ones that do not parse.
pub open spec fn parse_params_rec(s: Seq<u8>, cur: Seq<u8>, acc: Seq<u16>) -> Seq<u16>
    decreases s.len(),
{
    if s.len() == 0 {
        acc + component_params(cur)
    } else if s[0] == 0x3B {
        parse_params_rec(s.drop_first(), Seq::empty(), acc + component_params(cur))
    } else {
        parse_params_rec(s.drop_first(), cur.push(s[0]), acc)
    }
}

pub open spec fn parse_params(s: Seq<u8>) -> Seq<u16> {
    parse_params_rec(s, Seq::empty(), Seq::empty())
}

fn parse_component(c: &[u8]) -> (r: Option<u16>)
    ensures
        match r {
            Some(v) => component_params(c@) == seq![v],
            None => component_params(c@) == Seq::<u16>::empty(),
        },
{
    match parse_capped(c, 65535) {
        Some(v) => Some(v as u16),
        None => None,
    }
}

/// Split an accumulator string on `;` and parse each component.
pub fn parse_sgr_params(s: &[u8]) -> (r: Vec<u16>)
    ensures
        r@ == parse_params(s@),
{
    let mut acc: Vec<u16> = Vec::new();
    let mut cur: Vec<u8> = Vec::new();
    let mut i: usize = 0;
    proof {
        assert(s@.skip(0) =~= s@);
    }
    while i < s.len()
        invariant
            0 <= i <= s@.len(),
            parse_params(s@) == parse_params_rec(s@.skip(i as int), cur@, acc@),
        decreases s@.len() - i,
    {
        let ghost pre = s@.skip(i as int);
        let ghost old_acc = acc@;
        let ghost old_cur = cur@;
        let b = s[i];
        proof {
            assert(pre[0] == s@[i as int]);
            assert(pre.drop_first() =~= s@.skip(i + 1));
        }
        if b == 0x3B {
            match parse_component(cur.as_slice()) {
                Some(v) => {
                    acc.push(v);
                },
                None => {},
            }
            cur = Vec::new();
            proof {
                assert(acc@ =~= old_acc + component_params(old_cur));
                assert(parse_params_rec(pre, old_cur, old_acc) == parse_params_rec(
                    s@.skip(i + 1),
                    cur@,
                    acc@,
                ));
            }
        } else {
            cur.push(b);
            proof {
                assert(cur@ =~= old_cur.push(b));
            }
        }
        i = i + 1;
    }
    let ghost old_acc = acc@;
    let ghost old_cur = cur@;
    proof {
        assert(s@.skip(i as int) =~= Seq::<u8>::empty());
    }
    match parse_component(cur.as_slice()) {
        Some(v) => {
            acc.push(v);
        },
        None => {},
    }
    proof {
        assert(acc@ =~= old_acc + component_params(old_cur));
    }
    acc
}

} // verus!
