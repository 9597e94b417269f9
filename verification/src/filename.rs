//! File names that do not collide with the files that are already there.
//!
//! The first name tried is `base.extension`; after that come
//! `base_1.extension`, `base_2.extension` and so on. The names that exist are
//! handed in by the caller, who has looked at the directory.

use vstd::prelude::*;
use vstd::relations::injective_on;
use vstd::set_lib::*;
use vstd::string::*;

verus! {

/// The character for a digit below ten.
pub open spec fn digit_char(d: nat) -> char {
    if d == 0 {
        '0'
    } else if d == 1 {
        '1'
    } else if d == 2 {
        '2'
    } else if d == 3 {
        '3'
    } else if d == 4 {
        '4'
    } else if d == 5 {
        '5'
    } else if d == 6 {
        '6'
    } else if d == 7 {
        '7'
    } else if d == 8 {
        '8'
    } else {
        '9'
    }
}

/// A number written in decimal, without leading zeros.
pub open spec fn decimal_text(n: nat) -> Seq<char>
    decreases n,
{
    if n < 10 {
        seq![digit_char(n)]
    } else {
        decimal_text(n / 10).push(digit_char(n % 10))
    }
}

/// The name that is tried at the given attempt.
pub open spec fn candidate_name(base: Seq<char>, extension: Seq<char>, attempt: nat) -> Seq<char> {
    if attempt == 0 {
        base + "."@ + extension
    } else {
        base + "_"@ + decimal_text(attempt) + "."@ + extension
    }
}

/// `name` is among the names that exist.
pub open spec fn is_taken(existing: Seq<String>, name: Seq<char>) -> bool {
    exists|i: int| 0 <= i < existing.len() && (#[trigger] existing[i])@ == name
}

/// `attempt` is the first whose name is free.
pub open spec fn is_first_free(
    base: Seq<char>,
    extension: Seq<char>,
    existing: Seq<String>,
    attempt: nat,
) -> bool {
    &&& !is_taken(existing, candidate_name(base, extension, attempt))
    &&& forall|earlier: nat|
        earlier < attempt ==> is_taken(existing, #[trigger] candidate_name(base, extension, earlier))
}

/// The first name in the order of attempts that is not taken.
pub open spec fn unique_filename_spec(
    base: Seq<char>,
    extension: Seq<char>,
    existing: Seq<String>,
) -> Seq<char> {
    candidate_name(
        base,
        extension,
        choose|attempt: nat| is_first_free(base, extension, existing, attempt),
    )
}

proof fn lemma_decimal_nonempty(n: nat)
    ensures
        decimal_text(n).len() >= 1,
    decreases n,
{
    if n >= 10 {
        lemma_decimal_nonempty(n / 10);
    }
}

/// Two numbers that are written alike are the same number.
pub proof fn lemma_decimal_injective(a: nat, b: nat)
    requires
        decimal_text(a) == decimal_text(b),
    ensures
        a == b,
    decreases a,
{
    if a < 10 {
        if b >= 10 {
            lemma_decimal_nonempty(b / 10);
            assert(decimal_text(b).len() == decimal_text(b / 10).len() + 1);
            assert(decimal_text(a).len() == 1);
        } else {
            assert(decimal_text(a)[0] == digit_char(a));
            assert(decimal_text(b)[0] == digit_char(b));
        }
    } else {
        if b < 10 {
            lemma_decimal_nonempty(a / 10);
            assert(decimal_text(a).len() == decimal_text(a / 10).len() + 1);
            assert(decimal_text(b).len() == 1);
        } else {
            let ta = decimal_text(a / 10);
            let tb = decimal_text(b / 10);
            assert(decimal_text(a) == ta.push(digit_char(a % 10)));
            assert(decimal_text(b) == tb.push(digit_char(b % 10)));
            assert(ta.push(digit_char(a % 10)).last() == digit_char(a % 10));
            assert(tb.push(digit_char(b % 10)).last() == digit_char(b % 10));
            assert(ta.push(digit_char(a % 10)).drop_last() =~= ta);
            assert(tb.push(digit_char(b % 10)).drop_last() =~= tb);
            assert(digit_char(a % 10) == digit_char(b % 10));
            assert(a % 10 == b % 10);
            lemma_decimal_injective(a / 10, b / 10);
            assert(a == 10 * (a / 10) + a % 10);
            assert(b == 10 * (b / 10) + b % 10);
        }
    }
}

/// No name is tried twice.
pub proof fn lemma_candidate_injective(base: Seq<char>, extension: Seq<char>, a: nat, b: nat)
    requires
        candidate_name(base, extension, a) == candidate_name(base, extension, b),
    ensures
        a == b,
{
    let under = "_"@;
    let dot = "."@;
    lemma_decimal_nonempty(a);
    lemma_decimal_nonempty(b);
    if a != 0 && b != 0 {
        let da = decimal_text(a);
        let db = decimal_text(b);
        let na = candidate_name(base, extension, a);
        let nb = candidate_name(base, extension, b);
        assert(na.len() == base.len() + under.len() + da.len() + dot.len() + extension.len());
        assert(nb.len() == base.len() + under.len() + db.len() + dot.len() + extension.len());
        let from = (base.len() + under.len()) as int;
        assert(na.subrange(from, from + da.len()) =~= da);
        assert(nb.subrange(from, from + db.len()) =~= db);
        lemma_decimal_injective(a, b);
    } else if a != 0 || b != 0 {
        let short = base + dot + extension;
        assert(short.len() == base.len() + dot.len() + extension.len());
        if a != 0 {
            assert(candidate_name(base, extension, a).len() == base.len() + under.len()
                + decimal_text(a).len() + dot.len() + extension.len());
        } else {
            assert(candidate_name(base, extension, b).len() == base.len() + under.len()
                + decimal_text(b).len() + dot.len() + extension.len());
        }
    }
}

/// Among one more attempts than there are existing names, one is free.
pub proof fn lemma_some_candidate_free(base: Seq<char>, extension: Seq<char>, existing: Seq<String>)
    ensures
        exists|attempt: nat|
            attempt <= existing.len() && !is_taken(
                existing,
                #[trigger] candidate_name(base, extension, attempt),
            ),
{
    let n = existing.len() as int;
    if forall|attempt: nat|
        attempt <= existing.len() ==> is_taken(
            existing,
            #[trigger] candidate_name(base, extension, attempt),
        ) {
        let attempts = set_int_range(0, n + 1);
        let positions = set_int_range(0, n);
        let name_of = |j: int| candidate_name(base, extension, j as nat);
        let held_at = |i: int| existing[i]@;
        lemma_int_range(0, n + 1);
        lemma_int_range(0, n);
        assert(injective_on(name_of, attempts)) by {
            assert forall|x1: int, x2: int|
                attempts.contains(x1) && attempts.contains(x2) && #[trigger] name_of(x1)
                    == #[trigger] name_of(x2) implies x1 == x2 by {
                lemma_candidate_injective(base, extension, x1 as nat, x2 as nat);
            }
        }
        let tried = attempts.map(name_of);
        let held = positions.map(held_at);
        lemma_map_size(attempts, tried, name_of);
        lemma_map_size_bound(positions, held, held_at);
        assert(tried.subset_of(held)) by {
            assert forall|name: Seq<char>| tried.contains(name) implies held.contains(name) by {
                let j = choose|j: int| attempts.contains(j) && name == name_of(j);
                assert(is_taken(existing, candidate_name(base, extension, j as nat)));
                let i = choose|i: int| 0 <= i < existing.len() && (#[trigger] existing[i])@ == name;
                assert(positions.contains(i) && name == held_at(i));
            }
        }
        lemma_len_subset(tried, held);
        assert(false);
    }
}

/// Whatever attempt is shown to be the first free one gives the name that
/// `unique_filename_spec` names.
pub proof fn lemma_first_free_unique(
    base: Seq<char>,
    extension: Seq<char>,
    existing: Seq<String>,
    attempt: nat,
)
    requires
        is_first_free(base, extension, existing, attempt),
    ensures
        unique_filename_spec(base, extension, existing) == candidate_name(base, extension, attempt),
{
    let chosen = choose|k: nat| is_first_free(base, extension, existing, k);
    assert(is_first_free(base, extension, existing, chosen));
    if chosen < attempt {
        assert(is_taken(existing, candidate_name(base, extension, chosen)));
    }
    if attempt < chosen {
        assert(is_taken(existing, candidate_name(base, extension, attempt)));
    }
}

fn digit_str(d: usize) -> (text: &'static str)
    requires
        d < 10,
    ensures
        text@ == seq![digit_char(d as nat)],
{
    proof {
        reveal_strlit("0");
        reveal_strlit("1");
        reveal_strlit("2");
        reveal_strlit("3");
        reveal_strlit("4");
        reveal_strlit("5");
        reveal_strlit("6");
        reveal_strlit("7");
        reveal_strlit("8");
        reveal_strlit("9");
    }
    let text = if d == 0 {
        "0"
    } else if d == 1 {
        "1"
    } else if d == 2 {
        "2"
    } else if d == 3 {
        "3"
    } else if d == 4 {
        "4"
    } else if d == 5 {
        "5"
    } else if d == 6 {
        "6"
    } else if d == 7 {
        "7"
    } else if d == 8 {
        "8"
    } else {
        "9"
    };
    proof {
        assert(text@ =~= seq![digit_char(d as nat)]);
    }
    text
}

/// Writes a number in decimal.
pub fn decimal_string(n: usize) -> (text: String)
    ensures
        text@ == decimal_text(n as nat),
    decreases n,
{
    if n < 10 {
        String::from_str(digit_str(n))
    } else {
        let mut text = decimal_string(n / 10);
        text.append(digit_str(n % 10));
        proof {
            assert(text@ =~= decimal_text(n as nat));
        }
        text
    }
}

/// Builds the name that is tried at the given attempt.
pub fn candidate(base: &str, extension: &str, attempt: usize) -> (name: String)
    ensures
        name@ == candidate_name(base@, extension@, attempt as nat),
{
    let mut name = String::from_str(base);
    if attempt != 0 {
        name.append("_");
        let number = decimal_string(attempt);
        name.append(number.as_str());
    }
    name.append(".");
    name.append(extension);
    name
}

/// Tells whether `name` is among the names that exist.
pub fn name_is_taken(existing: &Vec<String>, name: &String) -> (taken: bool)
    ensures
        taken == is_taken(existing@, name@),
{
    let mut i: usize = 0;
    while i < existing.len()
        invariant
            i <= existing@.len(),
            forall|j: int| 0 <= j < i ==> (#[trigger] existing@[j])@ != name@,
        decreases existing@.len() - i,
    {
        if existing[i] == *name {
            return true;
        }
        i += 1;
    }
    false
}

} // verus!
