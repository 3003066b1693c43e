use vstd::prelude::*;

verus! {

/// The character views of a list of strings.
pub open spec fn views(v: Seq<String>) -> Seq<Seq<char>> {
    v.map_values(|s: String| s@)
}

/// The space-separated tokens of a scope string, in order, empty tokens included:
/// each space ends one token and starts the next.
pub open spec fn split_spaces(s: Seq<char>) -> Seq<Seq<char>>
    decreases s.len(),
{
    if s.len() == 0 {
        seq![Seq::<char>::empty()]
    } else {
        let prev = split_spaces(s.drop_last());
        if s.last() == ' ' {
            prev.push(Seq::<char>::empty())
        } else {
            prev.update(prev.len() - 1, prev.last().push(s.last()))
        }
    }
}

/// The set of scopes that a scope string requests; duplicates collapse.
pub open spec fn scope_set(s: Seq<char>) -> Set<Seq<char>> {
    split_spaces(s).to_set()
}

/// The OpenID Connect scopes that every user may request.
pub open spec fn oidc_set() -> Set<Seq<char>> {
    set!["openid"@, "profile"@, "email"@]
}

/// A user may be granted `requested` when an admin, or when every requested scope is
/// an OpenID Connect scope or one of the user's permitted scopes.
pub open spec fn scopes_permitted(
    requested: Set<Seq<char>>,
    permitted: Set<Seq<char>>,
    is_admin: bool,
) -> bool {
    is_admin || requested.subset_of(permitted.union(oidc_set()))
}

/// Relies on `str::split` with a `' '` pattern, collected into owned strings.
#[verifier::external_body]
fn split_on_space(s: &str) -> (r: Vec<String>)
    ensures
        views(r@) == split_spaces(s@),
{
    s.split(' ').map(|c| c.to_string()).collect()
}

/// The scopes that a scope string requests, each once.
pub fn parse_scopes(s: &str) -> (r: Vec<String>)
    ensures
        views(r@).to_set() == scope_set(s@),
        views(r@).no_duplicates(),
{
    let parts = split_on_space(s);
    let mut out: Vec<String> = Vec::new();
    let mut i: usize = 0;
    while i < parts.len()
        invariant
            i <= parts.len(),
            views(parts@) == split_spaces(s@),
            views(out@).to_set() == views(parts@).take(i as int).to_set(),
            views(out@).no_duplicates(),
        decreases parts.len() - i,
    {
        let p = parts[i].clone();
        let ghost before = views(out@);
        let ghost pv = views(parts@);
        proof {
            assert(pv.take(i + 1) == pv.take(i as int).push(pv[i as int]));
            pv.take(i as int).lemma_push_to_set_commute(pv[i as int]);
        }
        if !contains(&out, &p) {
            out.push(p);
            proof {
                assert(views(out@) == before.push(pv[i as int]));
                before.lemma_push_to_set_commute(pv[i as int]);
            }
        } else {
            proof {
                assert(before.to_set().contains(pv[i as int]));
            }
        }
        i = i + 1;
    }
    proof {
        assert(views(parts@).take(parts@.len() as int) == views(parts@));
    }
    out
}

/// Whether `v` holds a string equal to `s`.
pub fn contains(v: &Vec<String>, s: &String) -> (r: bool)
    ensures
        r == views(v@).contains(s@),
{
    let mut i: usize = 0;
    while i < v.len()
        invariant
            i <= v.len(),
            forall|j: int| 0 <= j < i ==> v@[j]@ != s@,
        decreases v.len() - i,
    {
        if v[i] == *s {
            assert(views(v@)[i as int] == s@);
            return true;
        }
        i = i + 1;
    }
    proof {
        if views(v@).contains(s@) {
            let j = choose|j: int| 0 <= j < views(v@).len() && views(v@)[j] == s@;
            assert(v@[j]@ == s@);
        }
    }
    false
}

/// The OpenID Connect scopes: `openid`, `profile` and `email`.
pub fn oidc_scopes() -> (r: Vec<String>)
    ensures
        views(r@).to_set() == oidc_set(),
        views(r@).no_duplicates(),
{
    let r = vec!["openid".to_owned(), "profile".to_owned(), "email".to_owned()];
    proof {
        reveal_strlit("openid");
        reveal_strlit("profile");
        reveal_strlit("email");
        let v = views(r@);
        assert(v == seq!["openid"@, "profile"@, "email"@]);
        assert(v[0].len() == 6 && v[1].len() == 7 && v[2].len() == 5);
        assert(v.to_set() =~= oidc_set()) by {
            assert forall|x| v.to_set().contains(x) <==> oidc_set().contains(x) by {
                if oidc_set().contains(x) {
                    if x == "openid"@ { assert(v[0] == x); }
                    else if x == "profile"@ { assert(v[1] == x); }
                    else { assert(v[2] == x); }
                }
            }
        }
    }
    r
}

/// Whether a user with the permitted scopes `permitted` may be granted `requested`:
/// an admin may be granted any scope; any other user only OpenID Connect scopes and
/// permitted ones. One disallowed scope refuses the whole request.
pub fn check_scopes(requested: &Vec<String>, permitted: &Vec<String>, is_admin: bool) -> (r: bool)
    ensures
        r == scopes_permitted(views(requested@).to_set(), views(permitted@).to_set(), is_admin),
{
    if is_admin {
        return true;
    }
    let oidc = oidc_scopes();
    let ghost allowed = views(permitted@).to_set().union(oidc_set());
    let mut i: usize = 0;
    while i < requested.len()
        invariant
            i <= requested.len(),
            !is_admin,
            views(oidc@).to_set() == oidc_set(),
            allowed == views(permitted@).to_set().union(oidc_set()),
            forall|j: int| 0 <= j < i ==> allowed.contains(#[trigger] views(requested@)[j]),
        decreases requested.len() - i,
    {
        let in_permitted = contains(permitted, &requested[i]);
        let in_oidc = contains(&oidc, &requested[i]);
        if !in_permitted && !in_oidc {
            proof {
                let x = views(requested@)[i as int];
                assert(views(requested@)[i as int] == requested@[i as int]@);
                assert(views(requested@).to_set().contains(x));
                assert(!views(permitted@).to_set().contains(x));
                assert(!oidc_set().contains(x));
                assert(!allowed.contains(x));
                assert(!views(requested@).to_set().subset_of(allowed));
            }
            return false;
        }
        i = i + 1;
    }
    proof {
        assert forall|x| views(requested@).to_set().contains(x) implies allowed.contains(x) by {
            let j = choose|j: int| 0 <= j < views(requested@).len() && views(requested@)[j] == x;
        }
    }
    true
}

} // verus!
