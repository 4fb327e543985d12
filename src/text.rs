use vstd::prelude::*;
use vstd::string::*;

verus! {

/// The text starts with the bytes of `data:`.
pub open spec fn is_data_uri(t: Seq<u8>) -> bool {
    t.len() >= 5 && t[0] == 0x64u8 && t[1] == 0x61u8 && t[2] == 0x74u8 && t[3] == 0x61u8
        && t[4] == 0x3au8
}

/// Everything after the first comma of `t`, or `None` when `t` has no comma.
pub open spec fn after_first_comma(t: Seq<u8>) -> Option<Seq<u8>>
    decreases t.len(),
{
    if t.len() == 0 {
        None
    } else if t[0] == 0x2cu8 {
        Some(t.drop_first())
    } else {
        after_first_comma(t.drop_first())
    }
}

/// The base64 payload that an input text carries: after the first comma for
/// a data URI (none without a comma), the whole text otherwise.
pub open spec fn payload(t: Seq<u8>) -> Option<Seq<u8>> {
    if is_data_uri(t) {
        after_first_comma(t)
    } else {
        Some(t)
    }
}

proof fn lemma_after_first_comma_step(t: Seq<u8>, i: int)
    requires
        0 <= i < t.len(),
        t[i] != 0x2cu8,
    ensures
        after_first_comma(t.subrange(i, t.len() as int)) == after_first_comma(
            t.subrange(i + 1, t.len() as int),
        ),
{
    assert(t.subrange(i, t.len() as int).drop_first() =~= t.subrange(i + 1, t.len() as int));
}

/// Extracts the base64 payload of an input text (see `payload`).
pub fn payload_of(text: &str) -> (r: Option<&[u8]>)
    ensures
        match r {
            Some(p) => payload(text.spec_bytes()) == Some(p@),
            None => payload(text.spec_bytes()) is None,
        },
{
    let t = text.as_bytes();
    let n = t.len();
    if !(n >= 5 && t[0] == 0x64u8 && t[1] == 0x61u8 && t[2] == 0x74u8 && t[3] == 0x61u8 && t[4]
        == 0x3au8) {
        return Some(t);
    }
    let mut i: usize = 0;
    assert(t@.subrange(0, n as int) =~= t@);
    while i < n
        invariant
            0 <= i <= n,
            n == t@.len(),
            t@ == text.spec_bytes(),
            is_data_uri(t@),
            after_first_comma(t@) == after_first_comma(t@.subrange(i as int, n as int)),
        decreases n - i,
    {
        if t[i] == 0x2cu8 {
            let (_, rest) = t.split_at(i + 1);
            assert(t@.subrange(i as int, n as int).drop_first() =~= t@.subrange(
                i + 1,
                n as int,
            ));
            return Some(rest);
        }
        proof {
            lemma_after_first_comma_step(t@, i as int);
        }
        i = i + 1;
    }
    assert(t@.subrange(n as int, n as int).len() == 0);
    None
}

/// The prefix of a JPEG data URI.
pub open spec fn jpeg_uri_prefix() -> Seq<char> {
    "data:image/jpeg;base64,"@
}

/// Builds a JPEG data URI around a base64 payload.
pub fn jpeg_data_uri(base64_text: &str) -> (r: String)
    ensures
        r@ == jpeg_uri_prefix() + base64_text@,
{
    let mut s = String::from_str("data:image/jpeg;base64,");
    s.append(base64_text);
    s
}

/// The character of a decimal digit.
pub open spec fn digit_char(d: nat) -> char {
    if d == 0 {
        '0'
    } else if d == 1 {
        '1'
    } else if d == 2 {
        '2'
    } else if d == 3 {
        '3'
    } else if d == 4 {
        '4'
    } else if d == 5 {
        '5'
    } else if d == 6 {
        '6'
    } else if d == 7 {
        '7'
    } else if d == 8 {
        '8'
    } else {
        '9'
    }
}

/// The decimal notation of `n`, without leading zeros.
pub open spec fn decimal(n: nat) -> Seq<char>
    decreases n,
{
    if n < 10 {
        seq![digit_char(n)]
    } else {
        decimal(n / 10).push(digit_char(n % 10))
    }
}

/// The label `"{width}x{height}"` of an image size.
pub open spec fn size_label(width: u32, height: u32) -> Seq<char> {
    decimal(width as nat) + seq!['x'] + decimal(height as nat)
}

fn push_digit(s: &mut String, d: u32)
    requires
        d < 10,
    ensures
        final(s)@ == old(s)@.push(digit_char(d as nat)),
{
    let lit = if d == 0 {
        "0"
    } else if d == 1 {
        "1"
    } else if d == 2 {
        "2"
    } else if d == 3 {
        "3"
    } else if d == 4 {
        "4"
    } else if d == 5 {
        "5"
    } else if d == 6 {
        "6"
    } else if d == 7 {
        "7"
    } else if d == 8 {
        "8"
    } else {
        "9"
    };
    proof {
        reveal_strlit("0");
        reveal_strlit("1");
        reveal_strlit("2");
        reveal_strlit("3");
        reveal_strlit("4");
        reveal_strlit("5");
        reveal_strlit("6");
        reveal_strlit("7");
        reveal_strlit("8");
        reveal_strlit("9");
    }
    s.append(lit);
    assert(s@ =~= old(s)@.push(digit_char(d as nat)));
}

fn push_decimal(s: &mut String, n: u32)
    ensures
        final(s)@ == old(s)@ + decimal(n as nat),
    decreases n,
{
    if n >= 10 {
        push_decimal(s, n / 10);
    }
    push_digit(s, n % 10);
    assert(s@ =~= old(s)@ + decimal(n as nat));
}

/// Writes the label `"{width}x{height}"` of an image size.
pub fn size_label_of(width: u32, height: u32) -> (r: String)
    ensures
        r@ == size_label(width, height),
{
    let mut s = String::new();
    push_decimal(&mut s, width);
    proof {
        reveal_strlit("x");
    }
    s.append("x");
    push_decimal(&mut s, height);
    assert(s@ =~= size_label(width, height));
    s
}

} // verus!
