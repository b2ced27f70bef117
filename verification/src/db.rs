//! Statement text that depends on the request.
use vstd::prelude::*;

verus! {

/// `n` question-mark placeholders separated by ", ".
pub open spec fn placeholder_list(n: nat) -> Seq<char>
    decreases n,
{
    if n == 0 {
        Seq::empty()
    } else if n == 1 {
        seq!['?']
    } else {
        placeholder_list((n - 1) as nat) + seq![',', ' ', '?']
    }
}

/// `n` question-mark placeholders separated by ", ".
pub fn placeholders(n: usize) -> (r: String)
    ensures
        r@ == placeholder_list(n as nat),
{
    proof {
        reveal_strlit("?");
        reveal_strlit(", ?");
    }
    if n == 0 {
        return String::new();
    }
    let mut r = String::from_str("?");
    assert("?"@ =~= seq!['?']);
    let mut i: usize = 1;
    while i < n
        invariant
            1 <= i <= n,
            r@ == placeholder_list(i as nat),
        decreases n - i,
    {
        r.append(", ?");
        proof {
            reveal_strlit(", ?");
            assert(", ?"@ =~= seq![',', ' ', '?']);
        }
        i = i + 1;
    }
    r
}

/// The query for the parts whose id is one of `n` bound ids.
pub fn parts_by_ids_query(n: usize) -> (r: String)
    ensures
        r@ == "SELECT id, name, link FROM parts WHERE id IN ("@ + placeholder_list(n as nat) + ")"@,
{
    let mut r = String::from_str("SELECT id, name, link FROM parts WHERE id IN (");
    let p = placeholders(n);
    r.append(p.as_str());
    r.append(")");
    r
}

/// The placeholder list for `n` bound ids has one `?` per id, at every third
/// position, with ", " between two of them: `3n - 2` characters for `n >= 1`
/// and none for `n == 0`. So binding `n` ids to it binds each one.
pub proof fn lemma_placeholder_list_shape(n: nat)
    ensures
        n == 0 ==> placeholder_list(n).len() == 0,
        n >= 1 ==> placeholder_list(n).len() == 3 * n - 2,
        forall|k: int| 0 <= k < n ==> #[trigger] placeholder_list(n)[3 * k] == '?',
        forall|k: int|
            1 <= k < n ==> #[trigger] placeholder_list(n)[3 * k - 2] == ',' && placeholder_list(n)[3
                * k - 1] == ' ',
    decreases n,
{
    if n >= 2 {
        lemma_placeholder_list_shape((n - 1) as nat);
        let prev = placeholder_list((n - 1) as nat);
        let s = placeholder_list(n);
        assert(s == prev + seq![',', ' ', '?']);
        assert forall|k: int| 0 <= k < n implies #[trigger] s[3 * k] == '?' by {
            if k < n - 1 {
                assert(s[3 * k] == prev[3 * k]);
            }
        }
        assert forall|k: int| 1 <= k < n implies #[trigger] s[3 * k - 2] == ',' && s[3 * k - 1]
            == ' ' by {
            if k < n - 1 {
                assert(s[3 * k - 2] == prev[3 * k - 2]);
                assert(s[3 * k - 1] == prev[3 * k - 1]);
            }
        }
    }
}

/// The number of `?` characters in `s`.
pub open spec fn question_marks(s: Seq<char>) -> nat
    decreases s.len(),
{
    if s.len() == 0 {
        0
    } else {
        (if s.last() == '?' { 1nat } else { 0nat }) + question_marks(s.drop_last())
    }
}

/// The placeholder list for `n` ids holds exactly `n` placeholders.
pub proof fn lemma_placeholder_count(n: nat)
    ensures
        question_marks(placeholder_list(n)) == n,
    decreases n,
{
    if n == 1 {
        assert(seq!['?'].drop_last() =~= Seq::<char>::empty());
        assert(question_marks(Seq::<char>::empty()) == 0);
    } else if n >= 2 {
        lemma_placeholder_count((n - 1) as nat);
        let prev = placeholder_list((n - 1) as nat);
        let s = prev + seq![',', ' ', '?'];
        let a = prev + seq![',', ' '];
        let b = prev + seq![','];
        assert(s.drop_last() =~= a);
        assert(a.drop_last() =~= b);
        assert(b.drop_last() =~= prev);
        assert(s.last() == '?');
        assert(a.last() == ' ');
        assert(b.last() == ',');
        assert(question_marks(b) == question_marks(prev));
        assert(question_marks(a) == question_marks(b));
        assert(question_marks(s) == 1 + question_marks(a));
        assert(placeholder_list(n) == s);
    }
}

} // verus!
