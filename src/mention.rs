use vstd::prelude::*;

verus! {

/// A member of the remote server: account id, account name and optional per-server nickname.
pub struct User {
    pub id: u64,
    pub name: String,
    pub nick: Option<String>,
}

/// The name a user is shown under: the server nickname, else the account name.
pub open spec fn display_name_of(u: User) -> Seq<char> {
    match u.nick {
        Some(n) => n@,
        None => u.name@,
    }
}

impl User {
    /// The name this user is shown under in the server.
    pub fn display_name(&self) -> (r: String)
        ensures
            r@ == display_name_of(*self),
    {
        match &self.nick {
            Some(n) => n.clone(),
            None => self.name.clone(),
        }
    }
}

pub open spec fn is_digit(c: char) -> bool {
    '0' <= c && c <= '9'
}

pub open spec fn digit_value(c: char) -> nat {
    (c as u32 - '0' as u32) as nat
}

/// The number that a run of decimal digits denotes.
pub open spec fn decimal_value(d: Seq<char>) -> nat
    decreases d.len(),
{
    if d.len() == 0 {
        0
    } else {
        decimal_value(d.drop_last()) * 10 + digit_value(d.last())
    }
}

/// How many decimal digits `s` starts with.
pub open spec fn digit_run(s: Seq<char>) -> nat
    decreases s.len(),
{
    if s.len() > 0 && is_digit(s[0]) {
        1 + digit_run(s.drop_first())
    } else {
        0
    }
}

/// A whole mention token: `<@!`, one or more decimal digits, `>`.
pub open spec fn is_token(t: Seq<char>) -> bool {
    &&& t.len() >= 5
    &&& t[0] == '<'
    &&& t[1] == '@'
    &&& t[2] == '!'
    &&& t[t.len() - 1] == '>'
    &&& forall|i: int| 3 <= i < t.len() - 1 ==> is_digit(#[trigger] t[i])
}

/// The user id written in a mention token.
pub open spec fn token_id(t: Seq<char>) -> nat {
    decimal_value(t.subrange(3, t.len() - 1))
}

/// Length of the mention token that `s` starts with, or 0 when it starts with none.
pub open spec fn token_len(s: Seq<char>) -> nat {
    if s.len() >= 3 && s[0] == '<' && s[1] == '@' && s[2] == '!' {
        let n = digit_run(s.skip(3));
        if n > 0 && 3 + n < s.len() && s[3 + n as int] == '>' {
            n + 4
        } else {
            0
        }
    } else {
        0
    }
}

/// The display name of the first listed user with id `id`.
pub open spec fn lookup_name(users: Seq<User>, id: nat) -> Option<Seq<char>>
    decreases users.len(),
{
    if users.len() == 0 {
        None
    } else if users[0].id == id {
        Some(display_name_of(users[0]))
    } else {
        lookup_name(users.drop_first(), id)
    }
}

/// `s` with every mention token of a listed user replaced by that user's display name,
/// scanning left to right without overlap; all other text is kept.
pub open spec fn substitute(s: Seq<char>, users: Seq<User>) -> Seq<char>
    decreases s.len(),
{
    if s.len() == 0 {
        Seq::empty()
    } else {
        let k = token_len(s);
        if k > 0 && k <= s.len() && lookup_name(users, token_id(s.take(k as int))) is Some {
            lookup_name(users, token_id(s.take(k as int)))->0 + substitute(s.skip(k as int), users)
        } else {
            seq![s[0]] + substitute(s.skip(1), users)
        }
    }
}


proof fn lemma_digit_run(s: Seq<char>, m: int)
    requires
        0 <= m <= s.len(),
        forall|j: int| 0 <= j < m ==> is_digit(#[trigger] s[j]),
        m == s.len() || !is_digit(s[m]),
    ensures
        digit_run(s) == m,
    decreases m,
{
    if m > 0 {
        assert forall|j: int| 0 <= j < m - 1 implies is_digit(#[trigger] s.drop_first()[j]) by {
            assert(s.drop_first()[j] == s[j + 1]);
        }
        lemma_digit_run(s.drop_first(), m - 1);
    }
}

proof fn lemma_decimal_push(d: Seq<char>, c: char)
    ensures
        decimal_value(d.push(c)) == decimal_value(d) * 10 + digit_value(c),
{
    assert(d.push(c).drop_last() =~= d);
}

proof fn lemma_lookup_bounded(users: Seq<User>, id: nat)
    ensures
        lookup_name(users, id) is Some ==> id <= u64::MAX,
    decreases users.len(),
{
    if users.len() > 0 && users[0].id != id {
        lemma_lookup_bounded(users.drop_first(), id);
    }
}

/// Text that holds no `<` opens no mention token, so it passes through unchanged and in front
/// of whatever follows it.
pub proof fn lemma_plain_prefix_kept(q: Seq<char>, r: Seq<char>, users: Seq<User>)
    requires
        forall|j: int| 0 <= j < q.len() ==> q[j] != '<',
    ensures
        substitute(q + r, users) == q + substitute(r, users),
    decreases q.len(),
{
    if q.len() > 0 {
        let s = q + r;
        assert(s[0] == q[0]);
        assert(token_len(s) == 0);
        assert(s.skip(1) =~= q.drop_first() + r);
        lemma_plain_prefix_kept(q.drop_first(), r, users);
        assert(seq![q[0]] + (q.drop_first() + substitute(r, users)) =~= q + substitute(r, users));
    } else {
        assert(q + r =~= r);
        assert(q + substitute(r, users) =~= substitute(r, users));
    }
}

/// A text that holds no `<` is left exactly as it is.
pub proof fn lemma_plain_text_unchanged(s: Seq<char>, users: Seq<User>)
    requires
        forall|j: int| 0 <= j < s.len() ==> s[j] != '<',
    ensures
        substitute(s, users) == s,
{
    lemma_plain_prefix_kept(s, Seq::empty(), users);
    assert(s + Seq::<char>::empty() =~= s);
    assert(substitute(Seq::<char>::empty(), users) =~= Seq::<char>::empty());
}

/// With no mentioned users the body comes back textually unchanged.
pub proof fn lemma_no_users_unchanged(s: Seq<char>)
    ensures
        substitute(s, Seq::<User>::empty()) == s,
    decreases s.len(),
{
    if s.len() > 0 {
        lemma_no_users_unchanged(s.skip(1));
        assert(seq![s[0]] + s.skip(1) =~= s);
    }
}

/// The first mention token of a text, found after a stretch without `<`, is replaced by the
/// display name of its user (and kept as written when no listed user has its id); the text
/// before it is kept, and the scan goes on after the token.
pub proof fn lemma_token_replaced(p: Seq<char>, t: Seq<char>, r: Seq<char>, users: Seq<User>)
    requires
        forall|j: int| 0 <= j < p.len() ==> p[j] != '<',
        is_token(t),
    ensures
        substitute(p + t + r, users) == p + match lookup_name(users, token_id(t)) {
            Some(name) => name,
            None => t,
        } + substitute(r, users),
{
    let s = t + r;
    let k = t.len();
    assert(p + t + r =~= p + s);
    lemma_plain_prefix_kept(p, s, users);
    assert forall|j: int| 0 <= j < k - 4 implies is_digit(#[trigger] s.skip(3)[j]) by {
        assert(s.skip(3)[j] == t[j + 3]);
    }
    assert(s.skip(3)[k - 4] == t[k - 1]);
    lemma_digit_run(s.skip(3), k - 4);
    assert(token_len(s) == k);
    assert(s.take(k as int) =~= t);
    match lookup_name(users, token_id(t)) {
        Some(name) => {
            assert(s.skip(k as int) =~= r);
        },
        None => {
            assert(s.skip(1) =~= t.skip(1) + r);
            assert forall|j: int| 0 <= j < t.skip(1).len() implies t.skip(1)[j] != '<' by {
                assert(t.skip(1)[j] == t[j + 1]);
            }
            lemma_plain_prefix_kept(t.skip(1), r, users);
            assert(seq![t[0]] + (t.skip(1) + substitute(r, users)) =~= t + substitute(r, users));
        },
    }
    assert(p + match lookup_name(users, token_id(t)) {
        Some(name) => name,
        None => t,
    } + substitute(r, users) =~= p + (match lookup_name(users, token_id(t)) {
        Some(name) => name,
        None => t,
    } + substitute(r, users)));
}

/// Index of the first user with id `id`, if any.
fn find_user(users: &Vec<User>, id: u64) -> (r: Option<usize>)
    ensures
        match r {
            Some(i) => i < users@.len() && lookup_name(users@, id as nat) == Some(
                display_name_of(users@[i as int]),
            ),
            None => lookup_name(users@, id as nat) is None,
        },
{
    let mut i: usize = 0;
    assert(users@.skip(0) =~= users@);
    while i < users.len()
        invariant
            i <= users@.len(),
            lookup_name(users@, id as nat) == lookup_name(users@.skip(i as int), id as nat),
        decreases users@.len() - i,
    {
        assert(users@.skip(i as int).drop_first() =~= users@.skip(i as int + 1));
        if users[i].id == id {
            return Some(i);
        }
        i = i + 1;
    }
    None
}

/// Reads the mention token that starts at position `i` of `s`, if one does. Returns its length
/// (0 when there is none) and its user id when the id fits in 64 bits.
fn token_at(s: &str, n: usize, i: usize) -> (r: (usize, Option<u64>))
    requires
        n == s@.len(),
        i < n,
    ensures
        r.0 == token_len(s@.skip(i as int)),
        r.0 <= n - i,
        r.0 > 0 ==> match r.1 {
            Some(v) => v as nat == token_id(s@.skip(i as int).take(r.0 as int)),
            None => token_id(s@.skip(i as int).take(r.0 as int)) > u64::MAX,
        },
{
    let ghost t = s@.skip(i as int);
    if n - i < 3 || s.get_char(i) != '<' || s.get_char(i + 1) != '@' || s.get_char(i + 2) != '!' {
        return (0, None);
    }
    let start = i + 3;
    let mut j: usize = start;
    let mut acc: u64 = 0;
    let mut big = false;
    loop
        invariant
            n == s@.len(),
            start <= j <= n,
            forall|k: int| start <= k < j ==> is_digit(#[trigger] s@[k]),
            !big ==> acc as nat == decimal_value(s@.subrange(start as int, j as int)),
            big ==> decimal_value(s@.subrange(start as int, j as int)) > u64::MAX,
        ensures
            n == s@.len(),
            start <= j <= n,
            forall|k: int| start <= k < j ==> is_digit(#[trigger] s@[k]),
            !big ==> acc as nat == decimal_value(s@.subrange(start as int, j as int)),
            big ==> decimal_value(s@.subrange(start as int, j as int)) > u64::MAX,
            j == n || !is_digit(s@[j as int]),
        decreases n - j,
    {
        if j >= n {
            break;
        }
        let c = s.get_char(j);
        if !('0' <= c && c <= '9') {
            break;
        }
        let d: u64 = (c as u32 - '0' as u32) as u64;
        proof {
            assert(s@.subrange(start as int, j + 1) =~= s@.subrange(start as int, j as int).push(c));
            lemma_decimal_push(s@.subrange(start as int, j as int), c);
        }
        if !big {
            if acc > (u64::MAX - d) / 10 {
                assert(acc * 10 + d > u64::MAX) by (nonlinear_arith)
                    requires
                        acc > (u64::MAX - d) / 10,
                        d <= 9,
                ;
                big = true;
            } else {
                assert(acc * 10 + d <= u64::MAX) by (nonlinear_arith)
                    requires
                        acc <= (u64::MAX - d) / 10,
                        d <= 9,
                ;
                acc = acc * 10 + d;
            }
        }
        j = j + 1;
    }
    let m = j - start;
    proof {
        assert forall|k: int| 0 <= k < m implies is_digit(#[trigger] t.skip(3)[k]) by {
            assert(t.skip(3)[k] == s@[start + k]);
        }
        if j < n {
            assert(t.skip(3)[m as int] == s@[j as int]);
        }
        lemma_digit_run(t.skip(3), m as int);
    }
    if m == 0 || j >= n || s.get_char(j) != '>' {
        return (0, None);
    }
    let k = m + 4;
    proof {
        assert(t.take(k as int).subrange(3, k - 1) =~= s@.subrange(start as int, j as int));
    }
    if big {
        (k, None)
    } else {
        (k, Some(acc))
    }
}

/// Replaces, left to right and without overlap, every mention token `<@!digits>` whose id
/// belongs to a listed user by that user's display name; all other text is kept as it is.
pub fn replace_mentions(body: &str, users: &Vec<User>) -> (r: String)
    ensures
        r@ == substitute(body@, users@),
{
    let n = body.unicode_len();
    let mut out = String::new();
    let mut i: usize = 0;
    assert(body@.skip(0) =~= body@);
    while i < n
        invariant
            n == body@.len(),
            i <= n,
            out@ + substitute(body@.skip(i as int), users@) == substitute(body@, users@),
        decreases n - i,
    {
        let ghost rest = body@.skip(i as int);
        let (k, id) = token_at(body, n, i);
        let found = if k > 0 {
            match id {
                Some(v) => find_user(users, v),
                None => None,
            }
        } else {
            None
        };
        proof {
            if k > 0 && id is None {
                lemma_lookup_bounded(users@, token_id(rest.take(k as int)));
            }
        }
        match found {
            Some(u) => {
                let name = users[u].display_name();
                out.append(name.as_str());
                proof {
                    assert(rest.skip(k as int) =~= body@.skip(i + k));
                    assert(out@ + substitute(body@.skip(i + k), users@) =~= substitute(
                        body@,
                        users@,
                    ));
                }
                i = i + k;
            },
            None => {
                let c = body.substring_char(i, i + 1);
                out.append(c);
                proof {
                    assert(c@ =~= seq![rest[0]]);
                    assert(rest.skip(1) =~= body@.skip(i + 1));
                    assert(out@ + substitute(body@.skip(i + 1), users@) =~= substitute(
                        body@,
                        users@,
                    ));
                }
                i = i + 1;
            },
        }
    }
    proof {
        assert(body@.skip(n as int) =~= Seq::<char>::empty());
        assert(out@ =~= substitute(body@, users@));
    }
    out
}

} // verus!
