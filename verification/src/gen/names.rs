use vstd::prelude::*;

verus! {

/// The decimal digit `d` as text.
pub open spec fn digit_text(d: int) -> Seq<char> {
    if d == 0 {
        "0"@
    } else if d == 1 {
        "1"@
    } else if d == 2 {
        "2"@
    } else if d == 3 {
        "3"@
    } else if d == 4 {
        "4"@
    } else if d == 5 {
        "5"@
    } else if d == 6 {
        "6"@
    } else if d == 7 {
        "7"@
    } else if d == 8 {
        "8"@
    } else {
        "9"@
    }
}

/// The decimal notation of `n`, without leading zeros.
pub open spec fn decimal_text(n: nat) -> Seq<char>
    decreases n,
{
    if n < 10 {
        digit_text(n as int)
    } else {
        decimal_text(n / 10) + digit_text((n % 10) as int)
    }
}

fn digit_string(d: usize) -> (r: String)
    requires
        d < 10,
    ensures
        r@ == digit_text(d as int),
{
    if d == 0 {
        String::from_str("0")
    } else if d == 1 {
        String::from_str("1")
    } else if d == 2 {
        String::from_str("2")
    } else if d == 3 {
        String::from_str("3")
    } else if d == 4 {
        String::from_str("4")
    } else if d == 5 {
        String::from_str("5")
    } else if d == 6 {
        String::from_str("6")
    } else if d == 7 {
        String::from_str("7")
    } else if d == 8 {
        String::from_str("8")
    } else {
        String::from_str("9")
    }
}

/// Appends the decimal notation of `n` to `s`.
pub fn push_decimal(s: &mut String, n: usize)
    ensures
        final(s)@ == old(s)@ + decimal_text(n as nat),
    decreases n,
{
    if n < 10 {
        let d = digit_string(n);
        s.append(d.as_str());
    } else {
        push_decimal(s, n / 10);
        let d = digit_string(n % 10);
        s.append(d.as_str());
        assert(s@ == old(s)@ + decimal_text((n / 10) as nat) + digit_text((n % 10) as int));
    }
}

/// The name under which struct definition number `id` is emitted.
pub open spec fn struct_name_text(name: Seq<char>, id: nat) -> Seq<char> {
    name + "_Posh"@ + decimal_text(id)
}

/// The name of struct definition number `id`: the struct's own name, then
/// `_Posh` and the number.
pub fn struct_name(name: &str, id: usize) -> (r: String)
    ensures
        r@ == struct_name_text(name@, id as nat),
{
    let mut s = String::from_str(name);
    s.append("_Posh");
    push_decimal(&mut s, id);
    s
}

proof fn lemma_digit_text(d: int)
    requires
        0 <= d < 10,
    ensures
        digit_text(d).len() == 1,
        digit_text(d)[0] != '_',
        forall|e: int| 0 <= e < 10 && digit_text(e)[0] == digit_text(d)[0] ==> e == d,
{
    reveal_strlit("0");
    reveal_strlit("1");
    reveal_strlit("2");
    reveal_strlit("3");
    reveal_strlit("4");
    reveal_strlit("5");
    reveal_strlit("6");
    reveal_strlit("7");
    reveal_strlit("8");
    reveal_strlit("9");
}

/// The decimal notation of a number is not empty and holds no underscore.
proof fn lemma_decimal_text_chars(n: nat)
    ensures
        decimal_text(n).len() >= 1,
        n >= 10 ==> decimal_text(n).len() >= 2,
        forall|i: int| 0 <= i < decimal_text(n).len() ==> #[trigger] decimal_text(n)[i] != '_',
    decreases n,
{
    if n < 10 {
        lemma_digit_text(n as int);
    } else {
        lemma_decimal_text_chars(n / 10);
        lemma_digit_text((n % 10) as int);
        let a = decimal_text(n / 10);
        let b = digit_text((n % 10) as int);
        assert forall|i: int| 0 <= i < decimal_text(n).len() implies #[trigger] decimal_text(n)[i] != '_' by {
            if i < a.len() {
                assert(decimal_text(n)[i] == a[i]);
            } else {
                assert(decimal_text(n)[i] == b[i - a.len()]);
            }
        }
    }
}

/// Different numbers have different decimal notations.
proof fn lemma_decimal_text_injective(n: nat, m: nat)
    requires
        decimal_text(n) == decimal_text(m),
    ensures
        n == m,
    decreases n,
{
    lemma_decimal_text_chars(n);
    lemma_decimal_text_chars(m);
    if n < 10 && m < 10 {
        lemma_digit_text(n as int);
        assert(decimal_text(n)[0] == decimal_text(m)[0]);
        assert(digit_text(m as int)[0] == digit_text(n as int)[0]);
    } else if n >= 10 && m >= 10 {
        let a = decimal_text(n / 10);
        let b = decimal_text(m / 10);
        lemma_digit_text((n % 10) as int);
        lemma_digit_text((m % 10) as int);
        let s = decimal_text(n);
        assert(s.last() == digit_text((n % 10) as int)[0]);
        assert(s.last() == digit_text((m % 10) as int)[0]);
        assert(a =~= s.drop_last());
        assert(b =~= s.drop_last());
        lemma_decimal_text_injective(n / 10, m / 10);
        assert(n % 10 == m % 10);
    } else if n < 10 {
        lemma_digit_text(n as int);
    } else {
        lemma_digit_text(m as int);
    }
}

/// A struct definition's emitted name gives back its number: the text
/// after the last underscore is `Posh` and the number.
pub proof fn lemma_struct_name_text_injective(a: Seq<char>, p: nat, b: Seq<char>, q: nat)
    requires
        struct_name_text(a, p) == struct_name_text(b, q),
    ensures
        p == q,
{
    reveal_strlit("_Posh");
    let s = struct_name_text(a, p);
    let dp = decimal_text(p);
    let dq = decimal_text(q);
    lemma_decimal_text_chars(p);
    lemma_decimal_text_chars(q);
    assert(s =~= a + ("_Posh"@ + dp));
    assert(s =~= b + ("_Posh"@ + dq));
    if dp.len() < dq.len() {
        let i = s.len() - dp.len() - 5;
        assert(s[i] == '_');
        let k = dq.len() - dp.len();
        assert(s[i] == ("_Posh"@ + dq)[k]);
        if k >= 5 {
            assert(("_Posh"@ + dq)[k] == dq[k - 5]);
        }
    } else if dq.len() < dp.len() {
        let i = s.len() - dq.len() - 5;
        assert(s[i] == '_');
        let k = dp.len() - dq.len();
        assert(s[i] == ("_Posh"@ + dp)[k]);
        if k >= 5 {
            assert(("_Posh"@ + dp)[k] == dp[k - 5]);
        }
    } else {
        assert(dp =~= s.subrange(s.len() - dp.len(), s.len() as int));
        assert(dq =~= s.subrange(s.len() - dq.len(), s.len() as int));
        lemma_decimal_text_injective(p, q);
    }
}

/// The name of variable number `id`.
pub open spec fn var_name_text(id: nat) -> Seq<char> {
    "var_"@ + decimal_text(id)
}

/// The name of variable number `id`: `var_` and the number.
pub fn var_name(id: usize) -> (r: String)
    ensures
        r@ == var_name_text(id as nat),
{
    let mut s = String::from_str("var_");
    push_decimal(&mut s, id);
    s
}

} // verus!
