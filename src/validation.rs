//! Instance names: which are accepted, and how free text becomes one.
use crate::text::{lower_of, lowercase, push_char};
use vstd::prelude::*;

verus! {

/// A character a name may hold: a lowercase ASCII letter, a digit or a hyphen.
pub open spec fn name_char(c: char) -> bool {
    ('a' <= c && c <= 'z') || ('0' <= c && c <= '9') || c == '-'
}

/// Two hyphens follow each other somewhere in `s`.
pub open spec fn has_double_hyphen(s: Seq<char>) -> bool {
    exists|i: int| 0 <= i && i + 1 < s.len() && #[trigger] s[i] == '-' && s[i + 1] == '-'
}

/// `i` is the first position of `s` whose character a name may not hold.
pub open spec fn first_bad_at(s: Seq<char>, i: int) -> bool {
    &&& 0 <= i < s.len()
    &&& !name_char(s[i])
    &&& forall|j: int| 0 <= j < i ==> name_char(s[j])
}

/// Why the character `c` is refused.
pub open spec fn char_reason(c: char) -> Seq<char> {
    if 'A' <= c && c <= 'Z' {
        "uppercase letters are not allowed, use lowercase"@
    } else if c == ' ' {
        "spaces are not allowed, use hyphens instead"@
    } else if c == '_' {
        "underscores are not allowed, use hyphens instead"@
    } else {
        "character '"@.push(c) + "' is not allowed"@
    }
}

/// Why `s` is not a valid name, or `None` when it is one. The checks apply
/// in order: emptiness, hyphens at the ends, doubled hyphens, then the
/// first refused character.
pub open spec fn name_problem(s: Seq<char>) -> Option<Seq<char>> {
    if s.len() == 0 {
        Some("name cannot be empty"@)
    } else if s[0] == '-' || s[s.len() - 1] == '-' {
        Some("name cannot start or end with a hyphen"@)
    } else if has_double_hyphen(s) {
        Some("name cannot contain consecutive hyphens"@)
    } else if exists|i: int| first_bad_at(s, i) {
        Some(char_reason(s[choose|i: int| first_bad_at(s, i)]))
    } else {
        None
    }
}

/// Error for a name that is not valid.
#[derive(Debug, Clone)]
pub struct InvalidNameError {
    pub value: String,
    pub reason: String,
}

/// The text of an invalid-name error.
pub open spec fn invalid_name_message(value: Seq<char>, reason: Seq<char>) -> Seq<char> {
    "Invalid name '"@ + value + "': "@ + reason
        + ". Use only lowercase letters, numbers, and hyphens (e.g., 'my-node-1')."@
}

impl InvalidNameError {
    /// The error's text.
    pub fn message(&self) -> (r: String)
        ensures
            r@ == invalid_name_message(self.value@, self.reason@),
    {
        let r = String::from_str("Invalid name '").concat(self.value.as_str()).concat("': ").concat(
            self.reason.as_str(),
        ).concat(". Use only lowercase letters, numbers, and hyphens (e.g., 'my-node-1').");
        proof {
            assert(r@ =~= invalid_name_message(self.value@, self.reason@));
        }
        r
    }
}

fn char_ok(c: char) -> (r: bool)
    ensures
        r == name_char(c),
{
    ('a' <= c && c <= 'z') || ('0' <= c && c <= '9') || c == '-'
}

fn refusal(c: char) -> (r: String)
    ensures
        r@ == char_reason(c),
{
    if 'A' <= c && c <= 'Z' {
        String::from_str("uppercase letters are not allowed, use lowercase")
    } else if c == ' ' {
        String::from_str("spaces are not allowed, use hyphens instead")
    } else if c == '_' {
        String::from_str("underscores are not allowed, use hyphens instead")
    } else {
        let mut r = String::from_str("character '");
        push_char(&mut r, c);
        let r = r.concat("' is not allowed");
        r
    }
}

fn refuse(name: &str, reason: String) -> (r: Result<(), InvalidNameError>)
    ensures
        r is Err,
        r->Err_0.value@ == name@,
        r->Err_0.reason@ == reason@,
{
    Err(InvalidNameError { value: String::from_str(name), reason })
}

/// Checks that a name holds only lowercase letters, digits and single
/// hyphens, and neither starts nor ends with a hyphen.
pub fn validate_name(name: &str) -> (r: Result<(), InvalidNameError>)
    ensures
        r is Ok <==> name_problem(name@) is None,
        r is Err ==> r->Err_0.value@ == name@ && Some(r->Err_0.reason@) == name_problem(name@),
{
    let n = name.unicode_len();
    if n == 0 {
        return refuse(name, String::from_str("name cannot be empty"));
    }
    if name.get_char(0) == '-' || name.get_char(n - 1) == '-' {
        return refuse(name, String::from_str("name cannot start or end with a hyphen"));
    }
    let mut i: usize = 0;
    while i + 1 < n
        invariant
            n == name@.len(),
            0 < n,
            i < n,
            name@[0] != '-',
            name@[n - 1] != '-',
            forall|j: int| 0 <= j < i && j + 1 < n ==> !(#[trigger] name@[j] == '-' && name@[j + 1] == '-'),
        decreases n - i,
    {
        if name.get_char(i) == '-' && name.get_char(i + 1) == '-' {
            proof {
                assert(has_double_hyphen(name@));
            }
            return refuse(name, String::from_str("name cannot contain consecutive hyphens"));
        }
        i = i + 1;
    }
    proof {
        assert(!has_double_hyphen(name@));
    }
    let mut k: usize = 0;
    while k < n
        invariant
            n == name@.len(),
            0 < n,
            name@[0] != '-',
            name@[n - 1] != '-',
            !has_double_hyphen(name@),
            k <= n,
            forall|j: int| 0 <= j < k ==> name_char(name@[j]),
        decreases n - k,
    {
        let c = name.get_char(k);
        if !char_ok(c) {
            proof {
                assert(first_bad_at(name@, k as int));
                let b = choose|b: int| first_bad_at(name@, b);
                if b < k {
                    assert(name_char(name@[b]));
                }
                if b > k {
                    assert(name_char(name@[k as int]));
                }
            }
            return refuse(name, refusal(c));
        }
        k = k + 1;
    }
    proof {
        assert(!exists|b: int| first_bad_at(name@, b));
    }
    Ok(())
}

/// What a character of lowercased text becomes in a name: spaces and
/// underscores become hyphens, lowercase ASCII letters, digits and hyphens
/// stay, the rest is dropped.
pub open spec fn kept_char(c: char) -> Option<char> {
    if c == ' ' || c == '_' {
        Some('-')
    } else if ('a' <= c && c <= 'z') || ('0' <= c && c <= '9') || c == '-' {
        Some(c)
    } else {
        None
    }
}

/// The characters of `t` that a name keeps, mapped as `kept_char` says.
pub open spec fn cleaned(t: Seq<char>) -> Seq<char>
    decreases t.len(),
{
    if t.len() == 0 {
        t
    } else {
        match kept_char(t.last()) {
            Some(c) => cleaned(t.drop_last()).push(c),
            None => cleaned(t.drop_last()),
        }
    }
}

/// The non-empty hyphen-separated pieces of `u`, joined by single hyphens.
pub open spec fn squashed(u: Seq<char>) -> Seq<char>
    decreases u.len(),
{
    if u.len() == 0 {
        u
    } else {
        let r = squashed(u.drop_last());
        let c = u.last();
        if c == '-' {
            r
        } else if u.len() >= 2 && u[u.len() - 2] == '-' && r.len() > 0 {
            r.push('-').push(c)
        } else {
            r.push(c)
        }
    }
}

/// Every character a name keeps is one a name may hold.
proof fn lemma_cleaned_chars(t: Seq<char>)
    ensures
        forall|i: int| 0 <= i < cleaned(t).len() ==> name_char(#[trigger] cleaned(t)[i]),
    decreases t.len(),
{
    if t.len() > 0 {
        lemma_cleaned_chars(t.drop_last());
        let r = cleaned(t.drop_last());
        match kept_char(t.last()) {
            Some(c) => {
                assert(name_char(c));
                assert forall|i: int| 0 <= i < cleaned(t).len() implies name_char(
                    #[trigger] cleaned(t)[i],
                ) by {
                    if i < r.len() {
                        assert(cleaned(t)[i] == r[i]);
                    }
                }
            },
            None => {},
        }
    }
}

/// `s` is empty or a valid name.
pub open spec fn well_formed_name(s: Seq<char>) -> bool {
    &&& forall|i: int| 0 <= i < s.len() ==> name_char(#[trigger] s[i])
    &&& s.len() > 0 ==> s[0] != '-' && s[s.len() - 1] != '-'
    &&& !has_double_hyphen(s)
}

/// Squashing text made of name characters gives the empty string or a
/// valid name.
proof fn lemma_squashed_well_formed(u: Seq<char>)
    requires
        forall|i: int| 0 <= i < u.len() ==> name_char(#[trigger] u[i]),
    ensures
        well_formed_name(squashed(u)),
    decreases u.len(),
{
    if u.len() > 0 {
        let d = u.drop_last();
        assert forall|i: int| 0 <= i < d.len() implies name_char(#[trigger] d[i]) by {
            assert(d[i] == u[i]);
        }
        lemma_squashed_well_formed(d);
        let r = squashed(d);
        let c = u.last();
        assert(name_char(c)) by {
            assert(u[u.len() - 1] == c);
        }
        let s = squashed(u);
        if c == '-' {
        } else if u.len() >= 2 && u[u.len() - 2] == '-' && r.len() > 0 {
            assert(s == r.push('-').push(c));
            assert(!has_double_hyphen(s)) by {
                if has_double_hyphen(s) {
                    let i = choose|i: int| 0 <= i && i + 1 < s.len() && #[trigger] s[i] == '-' && s[i + 1] == '-';
                    if i + 1 < r.len() {
                        assert(s[i] == r[i] && s[i + 1] == r[i + 1]);
                        assert(has_double_hyphen(r));
                    } else if i + 1 == r.len() {
                        assert(s[i] == r[r.len() - 1]);
                    } else {
                        assert(s[i + 1] == c);
                    }
                }
            }
            assert(s[0] == r[0]);
            assert forall|i: int| 0 <= i < s.len() implies name_char(#[trigger] s[i]) by {
                if i < r.len() {
                    assert(s[i] == r[i]);
                }
            }
        } else {
            assert(s == r.push(c));
            assert(!has_double_hyphen(s)) by {
                if has_double_hyphen(s) {
                    let i = choose|i: int| 0 <= i && i + 1 < s.len() && #[trigger] s[i] == '-' && s[i + 1] == '-';
                    if i + 1 < r.len() {
                        assert(s[i] == r[i] && s[i + 1] == r[i + 1]);
                        assert(has_double_hyphen(r));
                    } else {
                        assert(s[i + 1] == c);
                    }
                }
            }
            if r.len() > 0 {
                assert(s[0] == r[0]);
            }
            assert forall|i: int| 0 <= i < s.len() implies name_char(#[trigger] s[i]) by {
                if i < r.len() {
                    assert(s[i] == r[i]);
                }
            }
        }
    }
}

/// A well-formed name that is not empty passes validation.
proof fn lemma_well_formed_valid(s: Seq<char>)
    requires
        well_formed_name(s),
        s.len() > 0,
    ensures
        name_problem(s) is None,
{
    assert(!exists|i: int| first_bad_at(s, i));
}

/// Cleaning any text gives the empty string or a name that validation accepts.
pub proof fn lemma_sanitized_is_valid(t: Seq<char>)
    ensures
        squashed(cleaned(t)).len() == 0 || name_problem(squashed(cleaned(t))) is None,
{
    lemma_cleaned_chars(t);
    lemma_squashed_well_formed(cleaned(t));
    if squashed(cleaned(t)).len() > 0 {
        lemma_well_formed_valid(squashed(cleaned(t)));
    }
}

fn kept(c: char) -> (r: Option<char>)
    ensures
        r == kept_char(c),
{
    if c == ' ' || c == '_' {
        Some('-')
    } else if ('a' <= c && c <= 'z') || ('0' <= c && c <= '9') || c == '-' {
        Some(c)
    } else {
        None
    }
}

/// Turns already lowercased text into a name: spaces and underscores become
/// hyphens, other characters that a name may not hold are dropped, and runs
/// of hyphens shrink to one, none at either end.
pub fn sanitize_lowered(t: &str) -> (r: String)
    ensures
        r@ == squashed(cleaned(t@)),
        r@.len() == 0 || name_problem(r@) is None,
{
    proof {
        lemma_sanitized_is_valid(t@);
    }
    let n = t.unicode_len();
    let mut r = String::new();
    let ghost mut u: Seq<char> = Seq::empty();
    let mut last_hyphen = false;
    let mut i: usize = 0;
    proof {
        assert(t@.take(0) =~= Seq::<char>::empty());
    }
    while i < n
        invariant
            n == t@.len(),
            i <= n,
            u == cleaned(t@.take(i as int)),
            r@ == squashed(u),
            last_hyphen == (u.len() > 0 && u.last() == '-'),
        decreases n - i,
    {
        let c = t.get_char(i);
        proof {
            assert(t@.take(i + 1).drop_last() =~= t@.take(i as int));
            assert(t@.take(i + 1).last() == c);
        }
        match kept(c) {
            Some(k) => {
                let ghost u0 = u;
                proof {
                    u = u.push(k);
                    assert(u.drop_last() =~= u0);
                }
                if k == '-' {
                    last_hyphen = true;
                } else {
                    if last_hyphen && r.unicode_len() > 0 {
                        push_char(&mut r, '-');
                    }
                    push_char(&mut r, k);
                    last_hyphen = false;
                }
            },
            None => {},
        }
        i = i + 1;
    }
    proof {
        assert(t@.take(n as int) =~= t@);
    }
    r
}

/// Turns free text into a name: lowercases it, then cleans it as
/// `sanitize_lowered` does.
pub fn sanitize_name(name: &str) -> (r: String)
    ensures
        r@ == squashed(cleaned(lower_of(name@))),
        r@.len() == 0 || name_problem(r@) is None,
{
    let lowered = lowercase(name);
    sanitize_lowered(lowered.as_str())
}

} // verus!
