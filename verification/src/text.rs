//! Text helpers shared by the decoder, the command encoding and the
//! reconciler's filtering: character/string conversions, case folding,
//! substring search and decimal formatting.
use vstd::prelude::*;
use vstd::string::StringExecFns;

verus! {

broadcast use vstd::string::axiom_spec_iter, vstd::string::next_postcondition;

/// What `str::to_lowercase` returns for a given character sequence. The
/// full case-folding table takes pages to state, and the result depends on
/// the characters alone, so it only gets a name here; [`lowercase`] relates
/// the executable call to it.
pub uninterp spec fn lower_of(s: Seq<char>) -> Seq<char>;

/// Relies on `str::to_lowercase`: the result is a function of the
/// characters alone, and an empty string lowercases to an empty string.
#[verifier::external_body]
pub fn lowercase(s: &str) -> (r: String)
    ensures
        r@ == lower_of(s@),
        s@.len() == 0 ==> r@.len() == 0,
{
    s.to_lowercase()
}

/// Relies on `String`'s `FromIterator<char>` impl: collecting characters
/// yields a string of exactly those characters, in order.
#[verifier::external_body]
pub fn chars_to_string(v: &Vec<char>) -> (r: String)
    ensures
        r@ == v@,
{
    v.iter().collect()
}

/// The characters of a string slice, in order, as a vector.
pub fn to_chars(s: &str) -> (r: Vec<char>)
    ensures
        r@ == s@,
{
    let mut out: Vec<char> = Vec::new();
    for c in it: s.chars()
        invariant
            it.seq() == s@,
            out@ == it.seq().take(it.index() as int),
    {
        out.push(c);
    }
    proof {
        assert(out@ =~= s@);
    }
    out
}

/// `n` stands at offset `k` of `h`.
pub open spec fn contains_at(h: Seq<char>, n: Seq<char>, k: int) -> bool {
    0 <= k && k + n.len() <= h.len() && h.subrange(k, k + n.len()) == n
}

/// `n` is a contiguous subsequence of `h`.
pub open spec fn contains_seq(h: Seq<char>, n: Seq<char>) -> bool {
    exists|k: int| contains_at(h, n, k)
}

/// Substring search: decides [`contains_seq`] over character vectors.
pub fn contains_chars(h: &Vec<char>, n: &Vec<char>) -> (r: bool)
    ensures
        r == contains_seq(h@, n@),
{
    if n.len() > h.len() {
        return false;
    }
    if n.len() == 0 {
        proof {
            assert(h@.subrange(0, 0) =~= n@);
            assert(contains_at(h@, n@, 0));
        }
        return true;
    }
    let mut k: usize = 0;
    while k <= h.len() - n.len()
        invariant
            1 <= n.len() <= h.len(),
            k <= h@.len() - n@.len() + 1,
            forall|q: int| 0 <= q < k ==> !contains_at(h@, n@, q),
        decreases h.len() - k,
    {
        let mut j: usize = 0;
        let mut matched = true;
        while j < n.len()
            invariant
                k + n.len() <= h.len(),
                j <= n.len(),
                matched ==> forall|q: int| 0 <= q < j ==> h@[k + q] == n@[q],
                !matched ==> !contains_at(h@, n@, k as int),
            decreases n.len() - j,
        {
            if h[k + j] != n[j] {
                proof {
                    if contains_at(h@, n@, k as int) {
                        assert(h@.subrange(k as int, k + n@.len())[j as int] == h@[k + j]);
                    }
                }
                matched = false;
                j = n.len();
            } else {
                j += 1;
            }
        }
        if matched {
            proof {
                assert(h@.subrange(k as int, k + n@.len()) =~= n@);
                assert(contains_at(h@, n@, k as int));
            }
            return true;
        }
        k += 1;
    }
    proof {
        assert forall|q: int| !contains_at(h@, n@, q) by {
            if 0 <= q < k as int {
            } else if q >= k as int {
                assert(q + n@.len() > h@.len());
            }
        }
    }
    false
}

/// Decides equality of two character vectors' contents.
pub fn chars_eq(a: &Vec<char>, b: &Vec<char>) -> (r: bool)
    ensures
        r == (a@ == b@),
{
    if a.len() != b.len() {
        return false;
    }
    let mut i: usize = 0;
    while i < a.len()
        invariant
            a.len() == b.len(),
            i <= a.len(),
            forall|q: int| 0 <= q < i ==> a@[q] == b@[q],
        decreases a.len() - i,
    {
        if a[i] != b[i] {
            return false;
        }
        i += 1;
    }
    proof {
        assert(a@ =~= b@);
    }
    true
}

/// Decides whether a character vector holds exactly the text of `w`.
pub fn chars_eq_str(a: &Vec<char>, w: &str) -> (r: bool)
    ensures
        r == (a@ == w@),
{
    let wc = to_chars(w);
    chars_eq(a, &wc)
}

/// The decimal digit character for `d`.
pub open spec fn digit_char(d: nat) -> char
    recommends
        d < 10,
{
    if d == 0 {
        '0'
    } else if d == 1 {
        '1'
    } else if d == 2 {
        '2'
    } else if d == 3 {
        '3'
    } else if d == 4 {
        '4'
    } else if d == 5 {
        '5'
    } else if d == 6 {
        '6'
    } else if d == 7 {
        '7'
    } else if d == 8 {
        '8'
    } else {
        '9'
    }
}

/// The decimal digits of `n`, most significant first, with no leading zeros
/// (except for `n == 0` itself).
pub open spec fn dec_digits(n: nat) -> Seq<char>
    decreases n,
{
    if n < 10 {
        seq![digit_char(n)]
    } else {
        dec_digits(n / 10).push(digit_char(n % 10))
    }
}

/// The decimal digit character for `d`, executably.
pub fn digit_to_char(d: u64) -> (c: char)
    requires
        d < 10,
    ensures
        c == digit_char(d as nat),
{
    if d == 0 {
        '0'
    } else if d == 1 {
        '1'
    } else if d == 2 {
        '2'
    } else if d == 3 {
        '3'
    } else if d == 4 {
        '4'
    } else if d == 5 {
        '5'
    } else if d == 6 {
        '6'
    } else if d == 7 {
        '7'
    } else if d == 8 {
        '8'
    } else {
        '9'
    }
}

/// Appends the decimal digits of `n` to `out`.
pub fn push_decimal(out: &mut Vec<char>, n: u64)
    ensures
        final(out)@ == old(out)@ + dec_digits(n as nat),
    decreases n,
{
    if n < 10 {
        let c = digit_to_char(n);
        out.push(c);
        proof {
            assert(old(out)@ + dec_digits(n as nat) =~= old(out)@.push(c));
        }
    } else {
        push_decimal(out, n / 10);
        let c = digit_to_char(n % 10);
        out.push(c);
        proof {
            assert((n as nat) / 10 == (n / 10) as nat);
            assert((n as nat) % 10 == (n % 10) as nat);
            assert(old(out)@ + dec_digits(n as nat) =~= (old(out)@ + dec_digits(
                (n / 10) as nat,
            )).push(c));
        }
    }
}

/// The decimal representation of `n` as a string.
pub fn decimal_string(n: u64) -> (r: String)
    ensures
        r@ == dec_digits(n as nat),
{
    let mut v: Vec<char> = Vec::new();
    push_decimal(&mut v, n);
    chars_to_string(&v)
}

/// The human-readable age of a backend timestamp against the current time:
/// "just now" under five seconds, then whole seconds, minutes, hours, days.
pub open spec fn age_label(now_secs: int, timestamp_ms: int) -> Seq<char>
    recommends
        0 <= now_secs,
        0 <= timestamp_ms,
{
    let diff = now_secs - timestamp_ms / 1000;
    if diff < 5 {
        "just now"@
    } else if diff < 60 {
        dec_digits(diff as nat) + "s ago"@
    } else if diff < 3600 {
        dec_digits((diff / 60) as nat) + "m ago"@
    } else if diff < 86400 {
        dec_digits((diff / 3600) as nat) + "h ago"@
    } else {
        dec_digits((diff / 86400) as nat) + "d ago"@
    }
}

/// Renders [`age_label`] for a timestamp in milliseconds, given the current
/// time in whole seconds since the epoch.
pub fn relative_age(now_secs: u64, timestamp_ms: u64) -> (r: String)
    ensures
        r@ == age_label(now_secs as int, timestamp_ms as int),
{
    let secs = timestamp_ms / 1000;
    if now_secs < secs {
        return String::from_str("just now");
    }
    let diff = now_secs - secs;
    if diff < 5 {
        String::from_str("just now")
    } else if diff < 60 {
        decimal_string(diff).concat("s ago")
    } else if diff < 3600 {
        decimal_string(diff / 60).concat("m ago")
    } else if diff < 86400 {
        decimal_string(diff / 3600).concat("h ago")
    } else {
        decimal_string(diff / 86400).concat("d ago")
    }
}

/// The index of the last `/` in `p`, or `-1` when there is none.
pub open spec fn last_slash(p: Seq<char>) -> int
    decreases p.len(),
{
    if p.len() == 0 {
        -1
    } else if p.last() == '/' {
        p.len() - 1
    } else {
        last_slash(p.drop_last())
    }
}

/// `p` without its trailing `/` characters.
pub open spec fn strip_slashes(p: Seq<char>) -> Seq<char>
    decreases p.len(),
{
    if p.len() > 0 && p.last() == '/' {
        strip_slashes(p.drop_last())
    } else {
        p
    }
}

/// The final component of a `/`-separated path: the text after the last
/// `/`, with trailing separators ignored, as `Path::file_name` reads a
/// path. When there is no component — the text is empty or all separators,
/// or the last component is `..` — the whole text is the label instead (a
/// `.` component is kept as a name; components are not otherwise
/// normalized). Used for display labels of path-valued entries.
pub open spec fn filename_of(p: Seq<char>) -> Seq<char> {
    let q = strip_slashes(p);
    let name = q.subrange(last_slash(q) + 1, q.len() as int);
    if q.len() == 0 || name == ".."@ {
        p
    } else {
        name
    }
}

/// One past the last `/` among the first `end` characters, or zero when
/// there is none.
fn component_start(chars: &Vec<char>, end: usize) -> (r: usize)
    requires
        end <= chars.len(),
    ensures
        r as int == last_slash(chars@.take(end as int)) + 1,
        r <= end,
{
    let mut i: usize = end;
    proof {
        assert(chars@.take(end as int).take(end as int) =~= chars@.take(end as int));
    }
    while i > 0
        invariant
            i <= end <= chars.len(),
            last_slash(chars@.take(end as int)) == last_slash(chars@.take(i as int)),
        decreases i,
    {
        proof {
            assert(chars@.take(i as int).drop_last() =~= chars@.take(i - 1));
            assert(chars@.take(i as int).last() == chars@[i - 1]);
        }
        if chars[i - 1] == '/' {
            proof {
                assert(last_slash(chars@.take(i as int)) == i - 1);
            }
            return i;
        }
        i -= 1;
    }
    proof {
        assert(chars@.take(0) =~= Seq::<char>::empty());
    }
    0
}

/// Decides [`filename_of`] on a path-valued string.
pub fn filename_from_path(path: &String) -> (r: String)
    ensures
        r@ == filename_of(path@),
{
    let chars = to_chars(path.as_str());
    proof {
        assert(path@.take(path@.len() as int) =~= path@);
    }
    let mut end: usize = chars.len();
    while end > 0 && chars[end - 1] == '/'
        invariant
            end <= chars.len(),
            chars@ == path@,
            strip_slashes(path@) == strip_slashes(path@.take(end as int)),
        decreases end,
    {
        proof {
            assert(path@.take(end as int).drop_last() =~= path@.take(end - 1));
            assert(path@.take(end as int).last() == path@[end - 1]);
        }
        end -= 1;
    }
    proof {
        assert(strip_slashes(path@.take(end as int)) == path@.take(end as int));
    }
    if end == 0 {
        return path.clone();
    }
    let start = component_start(&chars, end);
    let mut name: Vec<char> = Vec::new();
    let mut j: usize = start;
    while j < end
        invariant
            start <= j <= end <= chars.len(),
            chars@ == path@,
            name@ == path@.subrange(start as int, j as int),
        decreases end - j,
    {
        proof {
            assert(path@.subrange(start as int, j + 1 as int) =~= path@.subrange(
                start as int,
                j as int,
            ).push(path@[j as int]));
        }
        name.push(chars[j]);
        j += 1;
    }
    proof {
        assert(name@ =~= path@.take(end as int).subrange(
            last_slash(path@.take(end as int)) + 1,
            path@.take(end as int).len() as int,
        ));
    }
    if chars_eq_str(&name, "..") {
        return path.clone();
    }
    chars_to_string(&name)
}

} // verus!
