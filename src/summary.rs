use vstd::prelude::*;

verus! {

/// A value that can render itself as a human-readable report.
pub trait Summary {
    fn summary(&self) -> String;
}

/// `k` is the position of the first `'e'` in `s`.
pub open spec fn is_first_e(s: Seq<char>, k: int) -> bool {
    0 <= k < s.len() && s[k] == 'e' && forall|i: int| 0 <= i < k ==> s[i] != 'e'
}

/// Position of the first `'e'` in `s` (meaningful when `s` holds one).
pub open spec fn first_e(s: Seq<char>) -> int {
    choose|k: int| is_first_e(s, k)
}

pub open spec fn has_e(s: Seq<char>) -> bool {
    exists|k: int| 0 <= k < s.len() && s[k] == 'e'
}

/// `s` right-aligned in a field of `width` characters filled with `fill`.
pub open spec fn pad_left(s: Seq<char>, fill: char, width: nat) -> Seq<char> {
    if s.len() >= width {
        s
    } else {
        Seq::new((width - s.len()) as nat, |_i: int| fill) + s
    }
}

/// Whether the exponent part (starting at its `'e'`) is negative.
pub open spec fn exponent_negative(exp: Seq<char>) -> bool {
    exp.len() >= 2 && exp[1] == '-'
}

/// The digits of the exponent part, without `'e'` and sign.
pub open spec fn exponent_digits(exp: Seq<char>) -> Seq<char> {
    if exponent_negative(exp) {
        exp.subrange(2, exp.len() as int)
    } else {
        exp.subrange(1, exp.len() as int)
    }
}

/// The layout of [`scientific_layout`] with the exponent part starting at `k`.
pub open spec fn layout_at(s: Seq<char>, k: int, width: nat, exp_pad: nat) -> Seq<char> {
    let exp = s.subrange(k, s.len() as int);
    let sign = if exponent_negative(exp) {
        '-'
    } else {
        '+'
    };
    pad_left(
        s.subrange(0, k) + seq!['e', sign] + pad_left(exponent_digits(exp), '0', exp_pad),
        ' ',
        width,
    )
}

/// The mantissa, then `e`, an explicit sign and the exponent digits padded
/// with zeros to `exp_pad`, all right-aligned in `width` characters.
pub open spec fn scientific_layout(s: Seq<char>, width: nat, exp_pad: nat) -> Seq<char> {
    layout_at(s, first_e(s), width, exp_pad)
}

/// A position that holds the first `'e'` is the one [`first_e`] names.
pub proof fn lemma_first_e_unique(s: Seq<char>, k: int)
    requires
        is_first_e(s, k),
    ensures
        first_e(s) == k,
{
    let j = first_e(s);
    assert(is_first_e(s, j));
    if j < k {
        assert(s[j] != 'e');
    } else if k < j {
        assert(s[k] != 'e');
    }
}

/// Appends `count` copies of the one-character string `c` to `out`.
fn append_repeated(out: &mut String, c: &str, count: usize)
    requires
        c@.len() == 1,
    ensures
        final(out)@ == old(out)@ + Seq::new(count as nat, |_i: int| c@[0]),
{
    let ghost start = out@;
    let mut i: usize = 0;
    while i < count
        invariant
            c@.len() == 1,
            i <= count,
            out@ == start + Seq::new(i as nat, |_i: int| c@[0]),
        decreases count - i,
    {
        out.append(c);
        i = i + 1;
        assert(out@ =~= start + Seq::new(i as nat, |_i: int| c@[0]));
    }
}

proof fn lemma_layout_pieces(
    s: Seq<char>,
    k: int,
    digits_start: int,
    negative: bool,
    width: nat,
    exp_pad: nat,
    spaces: nat,
    zeros: nat,
)
    requires
        0 <= k < s.len(),
        negative == exponent_negative(s.subrange(k, s.len() as int)),
        digits_start == if negative { k + 2 } else { k + 1 },
        digits_start <= s.len(),
        zeros == if s.len() - digits_start < exp_pad { exp_pad - (s.len() - digits_start) } else { 0 },
        spaces == if k + 2 + zeros + s.len() - digits_start < width {
            width - (k + 2 + zeros + s.len() - digits_start)
        } else {
            0
        },
    ensures
        layout_at(s, k, width, exp_pad) =~= Seq::new(spaces, |_i: int| ' ') + (s.subrange(0, k)
            + seq!['e', if negative { '-' } else { '+' }]) + (Seq::new(zeros, |_i: int| '0')
            + s.subrange(digits_start, s.len() as int)),
{
    let exp = s.subrange(k, s.len() as int);
    let digits = exponent_digits(exp);
    assert(digits =~= s.subrange(digits_start, s.len() as int));
    let padded = pad_left(digits, '0', exp_pad);
    assert(padded =~= Seq::new(zeros, |_i: int| '0') + digits);
    let core = s.subrange(0, k) + seq!['e', if negative { '-' } else { '+' }] + padded;
    assert(pad_left(core, ' ', width) =~= Seq::new(spaces, |_i: int| ' ') + core);
}

/// Position of the first `'e'` in `num`.
fn first_e_index(num: &str) -> (k: usize)
    requires
        has_e(num@),
    ensures
        is_first_e(num@, k as int),
{
    let n = num.unicode_len();
    let mut k: usize = 0;
    while num.get_char(k) != 'e'
        invariant
            n == num@.len(),
            has_e(num@),
            k < n,
            forall|i: int| 0 <= i < k ==> num@[i] != 'e',
        decreases n - k,
    {
        k = k + 1;
        if k == n {
            assert(false);
        }
    }
    k
}

/// Rewrites a number rendered in Rust's lower-exponential notation
/// (`"1.234e-5"`) with an explicit exponent sign and an exponent of at least
/// `exp_pad` digits (`"1.234e-05"`), right-aligned in `width` characters.
#[verifier::rlimit(40)]
pub fn fmt_number(num: &str, width: usize, exp_pad: usize) -> (r: String)
    requires
        has_e(num@),
    ensures
        r@ == scientific_layout(num@, width as nat, exp_pad as nat),
{
    let n = num.unicode_len();
    let k = first_e_index(num);
    proof {
        lemma_first_e_unique(num@, k as int);
    }
    let ghost exp = num@.subrange(k as int, n as int);
    let negative = k + 1 < n && num.get_char(k + 1) == '-';
    assert(negative == exponent_negative(exp));
    let digits_start: usize = if negative {
        k + 2
    } else {
        k + 1
    };
    let digits_len: usize = n - digits_start;
    let zeros: usize = if digits_len < exp_pad {
        exp_pad - digits_len
    } else {
        0
    };
    let ghost core_len: int = k + 2 + zeros + digits_len;
    let spaces: usize = width.saturating_sub(k).saturating_sub(2).saturating_sub(zeros).saturating_sub(
        digits_len,
    );
    assert(spaces == if core_len < width {
        width - core_len
    } else {
        0
    });
    proof {
        reveal_strlit(" ");
        reveal_strlit("0");
        reveal_strlit("e");
        reveal_strlit("-");
        reveal_strlit("+");
    }
    let mut out = String::new();
    append_repeated(&mut out, " ", spaces);
    let ghost blank = out@;
    assert(blank =~= Seq::new(spaces as nat, |_i: int| ' '));
    let mantissa = num.substring_char(0, k);
    out.append(mantissa);
    out.append("e");
    let ghost sign = if negative {
        '-'
    } else {
        '+'
    };
    if negative {
        out.append("-");
    } else {
        out.append("+");
    }
    let ghost head = out@;
    assert(head =~= blank + (num@.subrange(0, k as int) + seq!['e', sign]));
    append_repeated(&mut out, "0", zeros);
    let ghost padded = out@;
    let digits = num.substring_char(digits_start, n);
    out.append(digits);
    assert(out@ =~= head + (Seq::new(zeros as nat, |_i: int| '0') + digits@));
    proof {
        lemma_layout_pieces(
            num@,
            k as int,
            digits_start as int,
            negative,
            width as nat,
            exp_pad as nat,
            spaces as nat,
            zeros as nat,
        );
    }
    out
}

} // verus!
