use vstd::prelude::*;

verus! {

/// Appends one character to a `String`.
///
/// Trusted: calls `String::push`, whose documentation says that it appends
/// the given `char` to the end of the string; this contract claims exactly that.
#[verifier::external_body]
pub(crate) fn push_char(s: &mut String, c: char)
    ensures
        final(s)@ == old(s)@.push(c),
{
    s.push(c)
}

} // verus!

verus! {

/// Whether two texts hold the same characters.
pub fn same_text(a: &str, b: &str) -> (res: bool)
    ensures
        res == (a@ == b@),
{
    let n = a.unicode_len();
    if n != b.unicode_len() {
        return false;
    }
    let mut i: usize = 0;
    while i < n
        invariant
            n == a@.len(),
            n == b@.len(),
            i <= n,
            forall|j: int| 0 <= j < i ==> a@[j] == b@[j],
        decreases n - i,
    {
        if a.get_char(i) != b.get_char(i) {
            return false;
        }
        i = i + 1;
    }
    assert(a@ =~= b@);
    true
}

/// A character with the Unicode `White_Space` property, the test that
/// `char::is_whitespace` makes.
pub open spec fn is_white_space(c: char) -> bool {
    let u = c as u32;
    (9 <= u && u <= 13) || u == 32 || u == 0x85 || u == 0xA0 || u == 0x1680 || (0x2000 <= u
        && u <= 0x200A) || u == 0x2028 || u == 0x2029 || u == 0x202F || u == 0x205F || u
        == 0x3000
}

/// Whether a character has the Unicode `White_Space` property.
pub fn white_space(c: char) -> (res: bool)
    ensures
        res == is_white_space(c),
{
    let u = c as u32;
    (9 <= u && u <= 13) || u == 32 || u == 0x85 || u == 0xA0 || u == 0x1680 || (0x2000 <= u
        && u <= 0x200A) || u == 0x2028 || u == 0x2029 || u == 0x202F || u == 0x205F || u
        == 0x3000
}

/// A text without its leading and trailing white space, as `str::trim` gives it.
pub open spec fn trimmed(s: Seq<char>) -> Seq<char>
    decreases s.len(),
{
    if s.len() > 0 && is_white_space(s[0]) {
        trimmed(s.drop_first())
    } else if s.len() > 0 && is_white_space(s.last()) {
        trimmed(s.drop_last())
    } else {
        s
    }
}

proof fn lemma_trim_front(s: Seq<char>, k: int)
    requires
        0 <= k <= s.len(),
        forall|j: int| 0 <= j < k ==> is_white_space(#[trigger] s[j]),
    ensures
        trimmed(s) == trimmed(s.subrange(k, s.len() as int)),
    decreases k,
{
    if k == 0 {
        assert(s.subrange(0, s.len() as int) =~= s);
    } else {
        let t = s.drop_first();
        assert forall|j: int| 0 <= j < k - 1 implies is_white_space(#[trigger] t[j]) by {
            assert(t[j] == s[j + 1]);
        }
        lemma_trim_front(t, k - 1);
        assert(t.subrange(k - 1, t.len() as int) =~= s.subrange(k, s.len() as int));
    }
}

proof fn lemma_trim_back(s: Seq<char>, k: int)
    requires
        0 <= k <= s.len(),
        s.len() > k ==> !is_white_space(s[0]),
        forall|j: int| s.len() - k <= j < s.len() ==> is_white_space(#[trigger] s[j]),
    ensures
        trimmed(s) == trimmed(s.subrange(0, s.len() - k)),
    decreases k,
{
    if k == 0 {
        assert(s.subrange(0, s.len() as int) =~= s);
    } else {
        let t = s.drop_last();
        if s.len() > 0 && is_white_space(s[0]) {
            assert(s.len() == k);
            lemma_trim_front(s, k);
            assert(s.subrange(k, s.len() as int) =~= Seq::<char>::empty());
            assert(s.subrange(0, s.len() - k) =~= Seq::<char>::empty());
        } else {
            assert(is_white_space(s.last()));
            assert forall|j: int| t.len() - (k - 1) <= j < t.len() implies is_white_space(
                #[trigger] t[j],
            ) by {
                assert(t[j] == s[j]);
            }
            if t.len() > k - 1 {
                assert(t[0] == s[0]);
            }
            lemma_trim_back(t, k - 1);
            assert(t.subrange(0, t.len() - (k - 1)) =~= s.subrange(0, s.len() - k));
        }
    }
}

/// The text without leading and trailing white space, as `str::trim` gives it.
pub fn trim(s: &str) -> (res: String)
    ensures
        res@ == trimmed(s@),
{
    let n = s.unicode_len();
    let mut start: usize = 0;
    while start < n && white_space(s.get_char(start))
        invariant
            n == s@.len(),
            start <= n,
            forall|j: int| 0 <= j < start ==> is_white_space(#[trigger] s@[j]),
        decreases n - start,
    {
        start = start + 1;
    }
    let mut end: usize = n;
    while end > start && white_space(s.get_char(end - 1))
        invariant
            n == s@.len(),
            start <= end <= n,
            forall|j: int| end <= j < n ==> is_white_space(#[trigger] s@[j]),
        decreases end - start,
    {
        end = end - 1;
    }
    proof {
        lemma_trim_front(s@, start as int);
        let t = s@.subrange(start as int, n as int);
        assert forall|j: int| t.len() - (n - end) <= j < t.len() implies is_white_space(
            #[trigger] t[j],
        ) by {
            assert(t[j] == s@[start + j]);
        }
        if t.len() > n - end {
            assert(t[0] == s@[start as int]);
        }
        lemma_trim_back(t, n - end);
        let u = t.subrange(0, t.len() - (n - end));
        assert(u =~= s@.subrange(start as int, end as int));
        if u.len() > 0 {
            assert(u[0] == s@[start as int]);
            assert(u.last() == s@[end - 1]);
        }
    }
    s.substring_char(start, end).to_owned()
}

/// The position of the last occurrence of a character.
pub open spec fn last_index_of(s: Seq<char>, c: char) -> Option<int>
    decreases s.len(),
{
    if s.len() == 0 {
        None
    } else if s.last() == c {
        Some(s.len() - 1)
    } else {
        last_index_of(s.drop_last(), c)
    }
}

/// A file name without its extension: what precedes the last `.`, unless
/// that is empty or there is no `.`, in which case the whole name.
pub open spec fn file_stem_of(name: Seq<char>) -> Seq<char> {
    match last_index_of(name, '.') {
        Some(i) if i > 0 => name.subrange(0, i),
        _ => name,
    }
}

/// A file name without its extension (see `file_stem_of`).
pub fn file_stem(name: &str) -> (res: String)
    ensures
        res@ == file_stem_of(name@),
{
    let n = name.unicode_len();
    let mut k: usize = n;
    assert(name@.subrange(0, n as int) =~= name@);
    while k > 0 && name.get_char(k - 1) != '.'
        invariant
            n == name@.len(),
            k <= n,
            last_index_of(name@, '.') == last_index_of(name@.subrange(0, k as int), '.'),
        decreases k,
    {
        let ghost t = name@.subrange(0, k as int);
        assert(t.drop_last() =~= name@.subrange(0, k - 1));
        k = k - 1;
    }
    proof {
        let t = name@.subrange(0, k as int);
        if k == 0 {
            assert(t =~= Seq::<char>::empty());
        }
    }
    if k > 1 {
        name.substring_char(0, k - 1).to_owned()
    } else {
        name.to_owned()
    }
}

} // verus!
