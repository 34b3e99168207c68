//! Short symbols: names of at most nine characters from `[_0-9A-Za-z]`,
//! packed six bits per character into a single integer body.

use vstd::prelude::*;

verus! {

/// The largest number of characters a short symbol holds.
pub const MAX_SMALL_CHARS: usize = 9;

/// The six-bit code of one character of a short symbol; `0` marks a
/// character that a short symbol cannot hold.
pub open spec fn symbol_char_code(c: char) -> int {
    let n = c as u32 as int;
    if n == 95 {
        1
    } else if 48 <= n <= 57 {
        2 + (n - 48)
    } else if 65 <= n <= 90 {
        12 + (n - 65)
    } else if 97 <= n <= 122 {
        38 + (n - 97)
    } else {
        0
    }
}

/// `name` can be stored as a short symbol.
pub open spec fn is_short_name(name: Seq<char>) -> bool {
    &&& name.len() <= MAX_SMALL_CHARS
    &&& forall|i: int| 0 <= i < name.len() ==> symbol_char_code(#[trigger] name[i]) != 0
}

/// The packed body of a short symbol: the character codes read as the
/// digits of a base-64 numeral, first character most significant.
pub open spec fn symbol_body(name: Seq<char>) -> int
    decreases name.len(),
{
    if name.len() == 0 {
        0
    } else {
        symbol_body(name.drop_last()) * 64 + symbol_char_code(name.last())
    }
}

/// A short symbol, identified by its packed body.
#[derive(Clone, Copy, Debug, PartialEq, Eq, Structural)]
pub struct Symbol {
    pub body: u64,
}

impl Symbol {
    /// The symbol whose name is `name`.
    pub open spec fn spec_short(name: Seq<char>) -> Symbol {
        Symbol { body: symbol_body(name) as u64 }
    }

    /// Builds the short symbol named `name`.
    pub fn short(name: &str) -> (r: Symbol)
        requires
            is_short_name(name@),
        ensures
            r == Symbol::spec_short(name@),
            r.body == symbol_body(name@),
    {
        let n = name.unicode_len();
        let mut body: u64 = 0;
        let mut i: usize = 0;
        while i < n
            invariant
                n == name@.len(),
                is_short_name(name@),
                i <= n,
                body == symbol_body(name@.take(i as int)),
                body < pow64(i as nat),
            decreases n - i,
        {
            let c = name.get_char(i);
            let code = Self::char_code(c);
            proof {
                assert(name@.take(i as int + 1).drop_last() =~= name@.take(i as int));
                assert(name@.take(i as int + 1).last() == c);
                lemma_pow64_bound(i as nat);
            }
            body = body * 64 + code;
            i = i + 1;
        }
        proof {
            assert(name@.take(n as int) =~= name@);
        }
        Symbol { body }
    }

    fn char_code(c: char) -> (r: u64)
        ensures
            r == symbol_char_code(c),
            r < 64,
    {
        let n = c as u32;
        if n == 95 {
            1
        } else if 48 <= n && n <= 57 {
            (2 + (n - 48)) as u64
        } else if 65 <= n && n <= 90 {
            (12 + (n - 65)) as u64
        } else if 97 <= n && n <= 122 {
            (38 + (n - 97)) as u64
        } else {
            0
        }
    }
}

pub open spec fn pow64(n: nat) -> nat
    decreases n,
{
    if n == 0 {
        1
    } else {
        64 * pow64((n - 1) as nat)
    }
}

proof fn lemma_pow64_bound(n: nat)
    requires
        n < MAX_SMALL_CHARS,
    ensures
        pow64(n) * 64 <= pow64(9),
        pow64(9) < 0x1_0000_0000_0000_0000,
    decreases n,
{
    reveal_with_fuel(pow64, 10);
    if n > 0 {
        lemma_pow64_bound((n - 1) as nat);
    }
}

proof fn lemma_symbol_body_range(name: Seq<char>)
    requires
        is_short_name(name),
    ensures
        0 <= symbol_body(name) < pow64(name.len()),
        name.len() > 0 ==> symbol_body(name) >= 1,
    decreases name.len(),
{
    reveal_with_fuel(pow64, 2);
    if name.len() > 0 {
        let t = name.drop_last();
        assert(is_short_name(t)) by {
            assert forall|i: int| 0 <= i < t.len() implies symbol_char_code(#[trigger] t[i]) != 0 by {
                assert(t[i] == name[i]);
            }
        }
        assert(symbol_char_code(name[name.len() - 1]) != 0);
        lemma_symbol_body_range(t);
        assert(pow64(name.len()) == 64 * pow64(t.len()));
    }
}

/// The character numbers of a name.
pub open spec fn name_codes(name: Seq<char>) -> Seq<u32> {
    name.map_values(|c: char| c as u32)
}

/// Two valid short names with the same packed body have the same characters.
pub proof fn lemma_symbol_body_injective(a: Seq<char>, b: Seq<char>)
    requires
        is_short_name(a),
        is_short_name(b),
        symbol_body(a) == symbol_body(b),
    ensures
        name_codes(a) == name_codes(b),
    decreases a.len(),
{
    lemma_symbol_body_range(a);
    lemma_symbol_body_range(b);
    if a.len() == 0 && b.len() == 0 {
        assert(name_codes(a) =~= name_codes(b));
    } else if a.len() > 0 && b.len() > 0 {
        let ta = a.drop_last();
        let tb = b.drop_last();
        assert(is_short_name(ta)) by {
            assert forall|i: int| 0 <= i < ta.len() implies symbol_char_code(#[trigger] ta[i]) != 0 by {
                assert(ta[i] == a[i]);
            }
        }
        assert(is_short_name(tb)) by {
            assert forall|i: int| 0 <= i < tb.len() implies symbol_char_code(#[trigger] tb[i]) != 0 by {
                assert(tb[i] == b[i]);
            }
        }
        lemma_symbol_body_range(ta);
        lemma_symbol_body_range(tb);
        let ca = symbol_char_code(a.last());
        let cb = symbol_char_code(b.last());
        assert(0 < ca < 64 && 0 < cb < 64);
        assert(symbol_body(ta) * 64 + ca == symbol_body(tb) * 64 + cb);
        assert(symbol_body(ta) == symbol_body(tb) && ca == cb);
        lemma_symbol_body_injective(ta, tb);
        assert(a.last() as u32 == b.last() as u32);
        assert(name_codes(a) =~= name_codes(ta).push(a.last() as u32));
        assert(name_codes(b) =~= name_codes(tb).push(b.last() as u32));
    }
}

/// Valid short names whose characters differ name different symbols.
pub proof fn lemma_distinct_short_names(a: Seq<char>, b: Seq<char>)
    requires
        is_short_name(a),
        is_short_name(b),
        name_codes(a) != name_codes(b),
    ensures
        Symbol::spec_short(a) != Symbol::spec_short(b),
{
    lemma_symbol_body_range(a);
    lemma_symbol_body_range(b);
    lemma_pow64_monotone(a.len());
    lemma_pow64_monotone(b.len());
    if Symbol::spec_short(a) == Symbol::spec_short(b) {
        lemma_symbol_body_injective(a, b);
    }
}

proof fn lemma_pow64_monotone(n: nat)
    requires
        n <= MAX_SMALL_CHARS,
    ensures
        pow64(n) <= pow64(9),
        pow64(9) < 0x1_0000_0000_0000_0000,
    decreases 9 - n,
{
    reveal_with_fuel(pow64, 10);
    if n < 9 {
        lemma_pow64_monotone(n + 1);
        assert(pow64(n + 1) == 64 * pow64(n));
    }
}

} // verus!
