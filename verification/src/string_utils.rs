use vstd::prelude::*;

verus! {

/// An ASCII character.
pub open spec fn ascii_char(c: char) -> bool {
    (c as u32) < 128
}

/// A sequence of ASCII characters.
pub open spec fn ascii_seq(s: Seq<char>) -> bool {
    forall|i: int| 0 <= i < s.len() ==> ascii_char(s[i])
}

/// The ASCII whitespace characters: space, tab, line feed, vertical
/// tab, form feed, carriage return.
pub open spec fn ascii_space(c: char) -> bool {
    c == ' ' || c == '\t' || c == '\n' || c == '\u{0b}' || c == '\u{0c}' || c == '\r'
}

/// The ASCII alphanumeric characters: digits and letters.
pub open spec fn ascii_alnum(c: char) -> bool {
    ('0' <= c && c <= '9') || ('a' <= c && c <= 'z') || ('A' <= c && c <= 'Z')
}

/// Lower-case mapping on the ASCII letters; every other ASCII character
/// is kept.
pub open spec fn ascii_lower_char(c: char) -> char {
    if 'A' <= c && c <= 'Z' {
        (((c as u8) + 32) as char)
    } else {
        c
    }
}

/// Upper-case mapping on the ASCII letters; every other ASCII character
/// is kept.
pub open spec fn ascii_upper_char(c: char) -> char {
    if 'a' <= c && c <= 'z' {
        (((c as u8) - 32) as char)
    } else {
        c
    }
}

/// Pointwise ASCII lower-casing of a character sequence.
pub open spec fn to_ascii_lower(s: Seq<char>) -> Seq<char> {
    s.map_values(|c: char| ascii_lower_char(c))
}

pub uninterp spec fn space_char_ext(c: char) -> bool;

pub uninterp spec fn alnum_char_ext(c: char) -> bool;

pub uninterp spec fn upper_char_ext(c: char) -> Seq<char>;

pub uninterp spec fn lower_ext(s: Seq<char>) -> Seq<char>;

/// Whether a character counts as whitespace: on the ASCII range exactly
/// the six ASCII whitespace characters; beyond it, whatever the Unicode
/// white-space property says, named but not spelled out.
pub open spec fn space_char(c: char) -> bool {
    if ascii_char(c) {
        ascii_space(c)
    } else {
        space_char_ext(c)
    }
}

/// Whether a character counts as alphanumeric: on the ASCII range
/// exactly the digits and letters; beyond it, whatever the Unicode
/// alphabetic and numeric properties say, named but not spelled out.
pub open spec fn alnum_char(c: char) -> bool {
    if ascii_char(c) {
        ascii_alnum(c)
    } else {
        alnum_char_ext(c)
    }
}

/// The upper-case mapping of one character, one or more characters long:
/// on the ASCII range the one ASCII upper-case character; beyond it, the
/// Unicode mapping, named but not spelled out.
pub open spec fn upper_of_char(c: char) -> Seq<char> {
    if ascii_char(c) {
        seq![ascii_upper_char(c)]
    } else {
        upper_char_ext(c)
    }
}

/// The lower-case mapping of a string: on an all-ASCII string the
/// pointwise ASCII mapping; beyond it, the Unicode mapping, named but
/// not spelled out.
pub open spec fn lower_of(s: Seq<char>) -> Seq<char> {
    if ascii_seq(s) {
        to_ascii_lower(s)
    } else {
        lower_ext(s)
    }
}

/// A credential keeps only alphanumeric and whitespace characters of the
/// raw passcode.
pub open spec fn is_pass_char(c: char) -> bool {
    alnum_char(c) || space_char(c)
}

/// The sequence with its leading whitespace removed.
pub open spec fn drop_leading(s: Seq<char>) -> Seq<char>
    decreases s.len(),
{
    if s.len() > 0 && space_char(s[0]) {
        drop_leading(s.drop_first())
    } else {
        s
    }
}

/// The sequence with its trailing whitespace removed.
pub open spec fn drop_trailing(s: Seq<char>) -> Seq<char>
    decreases s.len(),
{
    if s.len() > 0 && space_char(s.last()) {
        drop_trailing(s.drop_last())
    } else {
        s
    }
}

/// The sequence with whitespace removed at both ends.
pub open spec fn trim_spec(s: Seq<char>) -> Seq<char> {
    drop_trailing(drop_leading(s))
}

/// What `clean_password` returns: keep only alphanumeric and whitespace
/// characters, trim, lower-case.
pub open spec fn clean_password_spec(s: Seq<char>) -> Seq<char> {
    lower_of(trim_spec(s.filter(|c: char| is_pass_char(c))))
}

proof fn lemma_drop_leading_at(s: Seq<char>, k: int)
    requires
        0 <= k <= s.len(),
        forall|i: int| 0 <= i < k ==> space_char(s[i]),
        k < s.len() ==> !space_char(s[k]),
    ensures
        drop_leading(s) == s.subrange(k, s.len() as int),
    decreases k,
{
    if k == 0 {
        assert(s.subrange(0, s.len() as int) =~= s);
    } else {
        lemma_drop_leading_at(s.drop_first(), k - 1);
        assert(s.drop_first().subrange(k - 1, s.drop_first().len() as int) =~= s.subrange(
            k,
            s.len() as int,
        ));
    }
}

proof fn lemma_drop_trailing_at(s: Seq<char>, h: int)
    requires
        0 <= h <= s.len(),
        forall|i: int| h <= i < s.len() ==> space_char(s[i]),
        h > 0 ==> !space_char(s[h - 1]),
    ensures
        drop_trailing(s) == s.subrange(0, h),
    decreases s.len() - h,
{
    if h == s.len() {
        if s.len() == 0 {
            assert(s.subrange(0, 0) =~= s);
        } else {
            assert(s.subrange(0, s.len() as int) =~= s);
        }
    } else {
        lemma_drop_trailing_at(s.drop_last(), h);
        assert(s.drop_last().subrange(0, h) =~= s.subrange(0, h));
    }
}

/// Relies on char::is_whitespace: determined by the character alone, and
/// on the ASCII range it holds of exactly the six ASCII whitespace
/// characters.
#[verifier::external_body]
fn is_space_exec(c: char) -> (r: bool)
    ensures
        r == space_char(c),
        !ascii_char(c) ==> r == space_char_ext(c),
{
    c.is_whitespace()
}

/// Relies on char::is_alphanumeric: determined by the character alone,
/// and on the ASCII range it holds of exactly the digits and letters.
#[verifier::external_body]
fn is_alnum_exec(c: char) -> (r: bool)
    ensures
        r == alnum_char(c),
        !ascii_char(c) ==> r == alnum_char_ext(c),
{
    c.is_alphanumeric()
}

/// Relies on char::to_uppercase: the mapping is determined by the
/// character alone and yields one or more characters; an ASCII character
/// maps to its one ASCII upper-case character.
#[verifier::external_body]
fn uppercase_char(c: char) -> (r: String)
    ensures
        r@ == upper_of_char(c),
        !ascii_char(c) ==> r@ == upper_char_ext(c),
        r@.len() >= 1,
{
    c.to_uppercase().collect()
}

/// Relies on str::to_lowercase: the result is determined by the
/// characters alone, is empty exactly when the input is, and on an
/// all-ASCII string is the pointwise ASCII lower-casing.
#[verifier::external_body]
fn lowercase_str(s: &str) -> (r: String)
    ensures
        r@ == lower_of(s@),
        !ascii_seq(s@) ==> r@ == lower_ext(s@),
        s@.len() == 0 ==> r@.len() == 0,
        s@.len() > 0 ==> r@.len() > 0,
{
    s.to_lowercase()
}

/// Relies on String::push: appends one character at the end.
#[verifier::external_body]
fn push_char(s: &mut String, c: char)
    ensures
        final(s)@ == old(s)@.push(c),
{
    s.push(c)
}

fn is_pass_char_exec(c: char) -> (r: bool)
    ensures
        r == is_pass_char(c),
{
    is_alnum_exec(c) || is_space_exec(c)
}

/// The characters of a string slice, as a vector.
pub fn to_char_vec(s: &str) -> (v: Vec<char>)
    ensures
        v@ == s@,
{
    let n = s.unicode_len();
    let mut v: Vec<char> = Vec::new();
    let mut i: usize = 0;
    while i < n
        invariant
            n == s@.len(),
            i <= n,
            v@ == s@.take(i as int),
        decreases n - i,
    {
        v.push(s.get_char(i));
        proof {
            assert(s@.take(i + 1) =~= s@.take(i as int).push(s@[i as int]));
        }
        i = i + 1;
    }
    proof {
        assert(s@.take(n as int) =~= s@);
    }
    v
}

/// Compares two string slices character by character.
pub fn str_eq(a: &str, b: &str) -> (r: bool)
    ensures
        r == (a@ == b@),
{
    let n = a.unicode_len();
    if n != b.unicode_len() {
        return false;
    }
    let mut i: usize = 0;
    while i < n
        invariant
            n == a@.len() == b@.len(),
            i <= n,
            forall|j: int| 0 <= j < i ==> a@[j] == b@[j],
        decreases n - i,
    {
        if a.get_char(i) != b.get_char(i) {
            return false;
        }
        i = i + 1;
    }
    proof {
        assert(a@ =~= b@);
    }
    true
}

pub(crate) fn trim_chars(v: &Vec<char>) -> (r: Vec<char>)
    ensures
        r@ == trim_spec(v@),
{
    let n = v.len();
    let mut lo: usize = 0;
    while lo < n && is_space_exec(v[lo])
        invariant
            n == v@.len(),
            lo <= n,
            forall|i: int| 0 <= i < lo ==> space_char(v@[i]),
        decreases n - lo,
    {
        lo = lo + 1;
    }
    proof {
        lemma_drop_leading_at(v@, lo as int);
    }
    if lo == n {
        proof {
            assert(v@.subrange(lo as int, n as int) =~= Seq::<char>::empty());
        }
        return Vec::new();
    }
    let mut hi: usize = n;
    while is_space_exec(v[hi - 1])
        invariant
            n == v@.len(),
            lo < hi <= n,
            !space_char(v@[lo as int]),
            forall|i: int| hi <= i < n ==> space_char(v@[i]),
        decreases hi,
    {
        hi = hi - 1;
    }
    proof {
        let tail = v@.subrange(lo as int, n as int);
        lemma_drop_trailing_at(tail, hi - lo);
        assert(tail.subrange(0, hi - lo) =~= v@.subrange(lo as int, hi as int));
    }
    let mut out: Vec<char> = Vec::new();
    let mut i: usize = lo;
    while i < hi
        invariant
            lo <= i <= hi <= n,
            n == v@.len(),
            out@ == v@.subrange(lo as int, i as int),
        decreases hi - i,
    {
        out.push(v[i]);
        proof {
            assert(v@.subrange(lo as int, i + 1) =~= v@.subrange(lo as int, i as int).push(
                v@[i as int],
            ));
        }
        i = i + 1;
    }
    out
}

/// The slice with whitespace removed at both ends.
pub fn trim_str(s: &str) -> (r: &str)
    ensures
        r@ == trim_spec(s@),
{
    let n = s.unicode_len();
    let mut lo: usize = 0;
    while lo < n && is_space_exec(s.get_char(lo))
        invariant
            n == s@.len(),
            lo <= n,
            forall|i: int| 0 <= i < lo ==> space_char(s@[i]),
        decreases n - lo,
    {
        lo = lo + 1;
    }
    proof {
        lemma_drop_leading_at(s@, lo as int);
    }
    if lo == n {
        let r = s.substring_char(n, n);
        proof {
            assert(s@.subrange(lo as int, n as int) =~= Seq::<char>::empty());
            assert(r@ =~= trim_spec(s@));
        }
        return r;
    }
    let mut hi: usize = n;
    while is_space_exec(s.get_char(hi - 1))
        invariant
            n == s@.len(),
            lo < hi <= n,
            !space_char(s@[lo as int]),
            forall|i: int| hi <= i < n ==> space_char(s@[i]),
        decreases hi,
    {
        hi = hi - 1;
    }
    proof {
        let tail = s@.subrange(lo as int, n as int);
        lemma_drop_trailing_at(tail, hi - lo);
        assert(tail.subrange(0, hi - lo) =~= s@.subrange(lo as int, hi as int));
    }
    s.substring_char(lo, hi)
}

/// Derives the stored credential from a raw passcode: keep only
/// alphanumeric and whitespace characters, trim, lower-case.
pub fn clean_password(password: &str) -> (r: String)
    ensures
        r@ == clean_password_spec(password@),
{
    let chars = to_char_vec(password);
    let n = chars.len();
    let mut filtered: Vec<char> = Vec::new();
    let mut i: usize = 0;
    proof {
        reveal(Seq::<_>::filter);
        assert(chars@.take(0) =~= Seq::<char>::empty());
    }
    while i < n
        invariant
            n == chars@.len(),
            i <= n,
            filtered@ == chars@.take(i as int).filter(|c: char| is_pass_char(c)),
        decreases n - i,
    {
        let c = chars[i];
        if is_pass_char_exec(c) {
            filtered.push(c);
        }
        proof {
            reveal(Seq::<_>::filter);
            assert(chars@.take(i + 1).drop_last() =~= chars@.take(i as int));
            assert(chars@.take(i + 1).last() == c);
        }
        i = i + 1;
    }
    proof {
        assert(chars@.take(n as int) =~= chars@);
    }
    let trimmed = trim_chars(&filtered);
    let m = trimmed.len();
    let mut joined = String::new();
    let mut j: usize = 0;
    while j < m
        invariant
            m == trimmed@.len(),
            j <= m,
            joined@ == trimmed@.take(j as int),
        decreases m - j,
    {
        push_char(&mut joined, trimmed[j]);
        proof {
            assert(trimmed@.take(j + 1) =~= trimmed@.take(j as int).push(trimmed@[j as int]));
        }
        j = j + 1;
    }
    proof {
        assert(trimmed@.take(m as int) =~= trimmed@);
    }
    lowercase_str(joined.as_str())
}

/// Length of the leading run of non-whitespace characters.
pub open spec fn first_word_len(s: Seq<char>) -> nat
    decreases s.len(),
{
    if s.len() == 0 || space_char(s[0]) {
        0
    } else {
        (1 + first_word_len(s.drop_first())) as nat
    }
}

proof fn lemma_first_word_len_le(s: Seq<char>)
    ensures
        first_word_len(s) <= s.len(),
    decreases s.len(),
{
    if s.len() == 0 || space_char(s[0]) {
    } else {
        lemma_first_word_len_le(s.drop_first());
    }
}

/// The whitespace-separated words of a sequence, in order.
pub open spec fn words(s: Seq<char>) -> Seq<Seq<char>>
    decreases s.len(),
    via words_dec
{
    if s.len() == 0 {
        Seq::empty()
    } else if space_char(s[0]) {
        words(s.drop_first())
    } else {
        seq![s.take(first_word_len(s) as int)] + words(s.skip(first_word_len(s) as int))
    }
}

#[via_fn]
proof fn words_dec(s: Seq<char>) {
    if s.len() > 0 && !space_char(s[0]) {
        lemma_first_word_len_le(s);
    }
}

/// A word rewritten as the upper-case mapping of its first character
/// followed by the lower-case mapping of the rest.
pub open spec fn cap_word(w: Seq<char>) -> Seq<char> {
    upper_of_char(w[0]) + lower_of(w.drop_first())
}

/// Words joined with a single space.
pub open spec fn join_words(ws: Seq<Seq<char>>) -> Seq<char>
    decreases ws.len(),
{
    if ws.len() == 0 {
        Seq::empty()
    } else if ws.len() == 1 {
        ws[0]
    } else {
        ws[0] + seq![' '] + join_words(ws.drop_first())
    }
}

/// What `capitalize_first_word` returns: each whitespace-separated word
/// with its first character upper-cased and the rest lower-cased, joined
/// by single spaces.
pub open spec fn capitalize_first_word_spec(s: Seq<char>) -> Seq<char> {
    join_words(words(s).map_values(|w: Seq<char>| cap_word(w)))
}

proof fn lemma_first_word_len_at(s: Seq<char>, k: int)
    requires
        0 <= k <= s.len(),
        forall|m: int| 0 <= m < k ==> !space_char(s[m]),
        k < s.len() ==> space_char(s[k]),
    ensures
        first_word_len(s) == k,
    decreases k,
{
    if k == 0 {
    } else {
        lemma_first_word_len_at(s.drop_first(), k - 1);
    }
}

fn capitalize_chars(v: &Vec<char>, i: usize) -> (r: String)
    requires
        i <= v.len(),
    ensures
        r@ == capitalize_first_word_spec(v@.skip(i as int)),
        words(v@.skip(i as int)).len() > 0 ==> r@.len() > 0,
    decreases v.len() - i,
{
    let n = v.len();
    if i == n {
        proof {
            assert(v@.skip(i as int) =~= Seq::<char>::empty());
        }
        return String::new();
    }
    let c = v[i];
    if is_space_exec(c) {
        let r = capitalize_chars(v, i + 1);
        proof {
            assert(v@.skip(i as int).drop_first() =~= v@.skip(i + 1));
        }
        return r;
    }
    let mut j: usize = i + 1;
    while j < n && !is_space_exec(v[j])
        invariant
            n == v@.len(),
            i < j <= n,
            forall|m: int| i <= m < j ==> !space_char(v@[m]),
        decreases n - j,
    {
        j = j + 1;
    }
    let ghost s = v@.skip(i as int);
    proof {
        assert forall|m: int| 0 <= m < j - i implies !space_char(s[m]) by {
            assert(s[m] == v@[i + m]);
        }
        if j < n {
            assert(s[j - i] == v@[j as int]);
        }
        lemma_first_word_len_at(s, j - i);
    }
    let mut word = uppercase_char(v[i]);
    let mut rest_chars = String::new();
    let mut m: usize = i + 1;
    while m < j
        invariant
            n == v@.len(),
            i + 1 <= m <= j <= n,
            rest_chars@ == v@.subrange(i + 1, m as int),
        decreases j - m,
    {
        push_char(&mut rest_chars, v[m]);
        proof {
            assert(v@.subrange(i + 1, m + 1) =~= v@.subrange(i + 1, m as int).push(v@[m as int]));
        }
        m = m + 1;
    }
    let lowered = lowercase_str(rest_chars.as_str());
    word.append(lowered.as_str());
    let ghost w = v@.subrange(i as int, j as int);
    proof {
        assert(w[0] == v@[i as int]);
        assert(w.drop_first() =~= v@.subrange(i + 1, j as int));
        assert(word@ == cap_word(w));
    }
    let rest = capitalize_chars(v, j);
    let ghost caps = words(s).map_values(|x: Seq<char>| cap_word(x));
    let ghost rest_caps = words(v@.skip(j as int)).map_values(|x: Seq<char>| cap_word(x));
    proof {
        let k = first_word_len(s) as int;
        assert(s.take(k) =~= w);
        assert(s.skip(k) =~= v@.skip(j as int));
        assert(words(s) =~~= seq![w] + words(v@.skip(j as int)));
        assert(caps =~~= seq![cap_word(w)] + rest_caps);
    }
    if rest.as_str().is_empty() {
        proof {
            assert(words(v@.skip(j as int)).len() == 0);
            assert(rest_caps.len() == 0);
            assert(caps =~~= seq![cap_word(w)]);
            assert(join_words(caps) == caps[0]);
        }
        word
    } else {
        let mut out = word;
        out.append(" ");
        out.append(rest.as_str());
        proof {
            reveal_strlit(" ");
            assert(" "@ =~= seq![' ']);
            if rest_caps.len() == 0 {
                assert(rest@.len() == 0);
            }
            assert(caps.len() >= 2);
            assert(caps[0] == cap_word(w));
            assert(caps.drop_first() =~~= rest_caps);
            assert(join_words(caps) == caps[0] + seq![' '] + join_words(rest_caps));
            assert(out@ =~= join_words(caps));
        }
        out
    }
}

/// Re-writes a phrase so that each whitespace-separated word starts with
/// its upper-cased first character and continues in lower case; words
/// are joined by single spaces.
pub fn capitalize_first_word(s: &str) -> (r: String)
    ensures
        r@ == capitalize_first_word_spec(s@),
{
    let v = to_char_vec(s);
    let r = capitalize_chars(&v, 0);
    proof {
        assert(v@.skip(0) =~= v@);
    }
    r
}

/// What `get_formatted_name` returns: the capitalized trimmed guest name,
/// or, when no usable name is supplied, the capitalized trimmed raw
/// passcode.
pub open spec fn formatted_name_spec(name: Option<Seq<char>>, pass: Option<Seq<char>>) -> Seq<
    char,
> {
    let fallback = match pass {
        Some(p) => p,
        None => Seq::<char>::empty(),
    };
    match name {
        Some(n) => if trim_spec(n).len() > 0 {
            capitalize_first_word_spec(trim_spec(n))
        } else {
            capitalize_first_word_spec(trim_spec(fallback))
        },
        None => capitalize_first_word_spec(trim_spec(fallback)),
    }
}

/// The display name written at check-in: the guest name when one is
/// supplied and non-blank, else the raw passcode, both trimmed and
/// capitalized word by word.
pub fn get_formatted_name(name: &Option<String>, pass: &Option<String>) -> (r: String)
    ensures
        r@ == formatted_name_spec(name.deep_view(), pass.deep_view()),
{
    match name {
        Some(n) => {
            let nv = to_char_vec(n.as_str());
            let t = trim_chars(&nv);
            if t.len() > 0 {
                let r = capitalize_chars(&t, 0);
                proof {
                    assert(t@.skip(0) =~= t@);
                }
                return r;
            }
        },
        None => {},
    }
    let fb: &str = match pass {
        Some(p) => p.as_str(),
        None => "",
    };
    proof {
        reveal_strlit("");
        assert(""@ =~= Seq::<char>::empty());
    }
    let fv = to_char_vec(fb);
    let t = trim_chars(&fv);
    let r = capitalize_chars(&t, 0);
    proof {
        assert(t@.skip(0) =~= t@);
    }
    r
}

proof fn lemma_ascii_char_classes(c: char)
    requires
        ascii_char(c),
    ensures
        ascii_char(ascii_lower_char(c)),
        space_char(ascii_lower_char(c)) == space_char(c),
        is_pass_char(c) ==> is_pass_char(ascii_lower_char(c)),
        ascii_lower_char(ascii_lower_char(c)) == ascii_lower_char(c),
{
    if 'A' <= c && c <= 'Z' {
        let l = ((c as u8) + 32) as char;
        assert('a' <= l && l <= 'z');
    }
}

proof fn lemma_filter_all(s: Seq<char>, p: spec_fn(char) -> bool)
    requires
        forall|i: int| 0 <= i < s.len() ==> p(s[i]),
    ensures
        s.filter(p) == s,
    decreases s.len(),
{
    reveal(Seq::<_>::filter);
    if s.len() > 0 {
        lemma_filter_all(s.drop_last(), p);
        assert(s.filter(p) =~= s);
    } else {
        assert(s.filter(p) =~= s);
    }
}

proof fn lemma_drop_leading_preserves(s: Seq<char>, p: spec_fn(char) -> bool)
    requires
        forall|i: int| 0 <= i < s.len() ==> p(s[i]),
    ensures
        forall|i: int| 0 <= i < drop_leading(s).len() ==> p(drop_leading(s)[i]),
        drop_leading(s).len() > 0 ==> !space_char(drop_leading(s)[0]),
    decreases s.len(),
{
    if s.len() > 0 && space_char(s[0]) {
        lemma_drop_leading_preserves(s.drop_first(), p);
    }
}

proof fn lemma_drop_trailing_preserves(s: Seq<char>, p: spec_fn(char) -> bool)
    requires
        forall|i: int| 0 <= i < s.len() ==> p(s[i]),
    ensures
        forall|i: int| 0 <= i < drop_trailing(s).len() ==> p(drop_trailing(s)[i]),
        drop_trailing(s).len() > 0 ==> !space_char(drop_trailing(s).last()),
        drop_trailing(s).len() > 0 ==> drop_trailing(s)[0] == s[0],
    decreases s.len(),
{
    if s.len() > 0 && space_char(s.last()) {
        lemma_drop_trailing_preserves(s.drop_last(), p);
    }
}

proof fn lemma_ascii_upper_classes(c: char)
    requires
        ascii_char(c),
    ensures
        ascii_char(ascii_upper_char(c)),
        space_char(ascii_upper_char(c)) == space_char(c),
        ascii_upper_char(ascii_upper_char(c)) == ascii_upper_char(c),
{
    if 'a' <= c && c <= 'z' {
        let u = ((c as u8) - 32) as char;
        assert('A' <= u && u <= 'Z');
    }
}

proof fn lemma_fwl_chars(s: Seq<char>)
    ensures
        forall|j: int| 0 <= j < first_word_len(s) ==> !space_char(s[j]),
    decreases s.len(),
{
    if s.len() > 0 && !space_char(s[0]) {
        lemma_fwl_chars(s.drop_first());
        lemma_first_word_len_le(s);
        assert forall|j: int| 0 <= j < first_word_len(s) implies !space_char(s[j]) by {
            if j > 0 {
                assert(j - 1 < first_word_len(s.drop_first()));
                assert(s.drop_first()[j - 1] == s[j]);
            }
        }
    }
}

proof fn lemma_words_wordlike(s: Seq<char>)
    ensures
        forall|i: int| 0 <= i < words(s).len() ==> (#[trigger] words(s)[i]).len() > 0,
        forall|i: int, j: int|
            0 <= i < words(s).len() && 0 <= j < words(s)[i].len() ==> !space_char(
                #[trigger] words(s)[i][j],
            ) && s.contains(words(s)[i][j]),
    decreases s.len(),
{
    if s.len() == 0 {
    } else if space_char(s[0]) {
        lemma_words_wordlike(s.drop_first());
        assert(words(s) == words(s.drop_first()));
        assert forall|i: int, j: int|
            0 <= i < words(s).len() && 0 <= j < words(s)[i].len() implies !space_char(
            words(s)[i][j],
        ) && s.contains(words(s)[i][j]) by {
            assert(!space_char(words(s.drop_first())[i][j]));
            assert(s.drop_first().contains(words(s)[i][j]));
            let k = choose|k: int|
                0 <= k < s.drop_first().len() && s.drop_first()[k] == words(s)[i][j];
            assert(s[k + 1] == words(s)[i][j]);
        }
    } else {
        lemma_first_word_len_le(s);
        lemma_fwl_chars(s);
        let k = first_word_len(s) as int;
        assert(k >= 1);
        lemma_words_wordlike(s.skip(k));
        assert(words(s) == seq![s.take(k)] + words(s.skip(k)));
        assert forall|i: int| 0 <= i < words(s).len() implies (#[trigger] words(s)[i]).len()
            > 0 by {
            if i == 0 {
                assert(words(s)[0] == s.take(k));
            } else {
                assert(words(s)[i] == words(s.skip(k))[i - 1]);
            }
        }
        assert forall|i: int, j: int|
            0 <= i < words(s).len() && 0 <= j < words(s)[i].len() implies !space_char(
            words(s)[i][j],
        ) && s.contains(words(s)[i][j]) by {
            if i == 0 {
                assert(words(s)[0] == s.take(k));
                assert(words(s)[0][j] == s[j]);
            } else {
                assert(words(s)[i] == words(s.skip(k))[i - 1]);
                assert(s.skip(k).contains(words(s)[i][j]));
                let m = choose|m: int|
                    0 <= m < s.skip(k).len() && s.skip(k)[m] == words(s)[i][j];
                assert(s[m + k] == words(s)[i][j]);
            }
        }
    }
}

proof fn lemma_words_of_join(ws: Seq<Seq<char>>)
    requires
        forall|i: int| 0 <= i < ws.len() ==> (#[trigger] ws[i]).len() > 0,
        forall|i: int, j: int|
            0 <= i < ws.len() && 0 <= j < ws[i].len() ==> !space_char(#[trigger] ws[i][j]),
    ensures
        words(join_words(ws)) =~~= ws,
    decreases ws.len(),
{
    if ws.len() == 0 {
    } else if ws.len() == 1 {
        let w = ws[0];
        assert(join_words(ws) == w);
        assert(w.len() > 0);
        assert forall|m: int| 0 <= m < w.len() implies !space_char(w[m]) by {
            assert(!space_char(ws[0][m]));
        }
        lemma_first_word_len_at(w, w.len() as int);
        assert(words(w) == seq![w.take(w.len() as int)] + words(w.skip(w.len() as int)));
        assert(w.take(w.len() as int) =~= w);
        assert(w.skip(w.len() as int) =~= Seq::<char>::empty());
        assert(words(Seq::<char>::empty()) =~~= Seq::<Seq<char>>::empty());
        assert(words(w) =~~= ws);
    } else {
        let w = ws[0];
        let rest = ws.drop_first();
        lemma_words_of_join(rest);
        let joined = join_words(ws);
        assert(joined == w + seq![' '] + join_words(rest));
        assert(w.len() > 0);
        assert forall|m: int| 0 <= m < w.len() implies !space_char(joined[m]) by {
            assert(!space_char(ws[0][m]));
            assert(joined[m] == w[m]);
        }
        assert(joined[w.len() as int] == ' ');
        lemma_first_word_len_at(joined, w.len() as int);
        assert(joined.take(w.len() as int) =~= w);
        let tail = joined.skip(w.len() as int);
        assert(tail[0] == ' ');
        assert(tail.drop_first() =~= join_words(rest));
        assert(words(tail) == words(join_words(rest)));
        assert(words(joined) == seq![joined.take(w.len() as int)] + words(tail));
        assert(words(joined) =~~= seq![w] + rest);
        assert(seq![w] + rest =~~= ws);
    }
}

/// Law: word capitalization is idempotent on ASCII phrases:
/// re-capitalizing a capitalized phrase gives it back unchanged.  Beyond
/// the ASCII range the Unicode upper-case mapping can expand a character
/// into several, whose tail a second pass would lower-case, so the law
/// is stated for the inputs the canonical examples use.
pub proof fn lemma_capitalize_idempotent(s: Seq<char>)
    requires
        ascii_seq(s),
    ensures
        capitalize_first_word_spec(capitalize_first_word_spec(s)) == capitalize_first_word_spec(
            s,
        ),
{
    let ws = words(s);
    let f = |w: Seq<char>| cap_word(w);
    let caps = ws.map_values(f);
    lemma_words_wordlike(s);
    assert forall|i: int| 0 <= i < caps.len() implies ((#[trigger] caps[i]).len() > 0 && (
    forall|j: int| 0 <= j < caps[i].len() ==> !space_char(#[trigger] caps[i][j])) && cap_word(
        caps[i],
    ) == caps[i]) by {
        let w = ws[i];
        assert forall|j: int| 0 <= j < w.len() implies ascii_char(#[trigger] w[j]) && !space_char(
            w[j],
        ) by {
            assert(s.contains(w[j]));
            let k = choose|k: int| 0 <= k < s.len() && s[k] == w[j];
            assert(ascii_char(s[k]));
        }
        let cw = caps[i];
        assert(cw == cap_word(w));
        assert(ascii_seq(w.drop_first()));
        assert(cw =~= seq![ascii_upper_char(w[0])] + to_ascii_lower(w.drop_first()));
        lemma_ascii_upper_classes(w[0]);
        assert forall|j: int| 0 <= j < cw.len() implies ascii_char(#[trigger] cw[j])
            && !space_char(cw[j]) by {
            if j > 0 {
                lemma_ascii_char_classes(w.drop_first()[j - 1]);
                assert(cw[j] == ascii_lower_char(w.drop_first()[j - 1]));
            }
        }
        assert(upper_of_char(cw[0]) =~= seq![ascii_upper_char(w[0])]);
        assert(cw.drop_first() =~= to_ascii_lower(w.drop_first()));
        assert(ascii_seq(cw.drop_first()));
        assert forall|j: int| 0 <= j < w.drop_first().len() implies #[trigger] to_ascii_lower(
            to_ascii_lower(w.drop_first()),
        )[j] == to_ascii_lower(w.drop_first())[j] by {
            lemma_ascii_char_classes(w.drop_first()[j]);
        }
        assert(lower_of(cw.drop_first()) =~= to_ascii_lower(w.drop_first()));
        assert(cap_word(cw) =~= cw);
    }
    lemma_words_of_join(caps);
    assert(words(capitalize_first_word_spec(s)) == caps);
    assert(caps.map_values(f) =~~= caps);
}

/// Law: passcode canonicalization is idempotent on ASCII passcodes:
/// cleaning an already cleaned passcode gives it back unchanged.  Beyond
/// the ASCII range the Unicode case mapping can add characters that a
/// second cleaning would treat differently, so the law is stated for the
/// inputs the canonical examples use.
pub proof fn lemma_clean_password_idempotent(s: Seq<char>)
    requires
        ascii_seq(s),
    ensures
        clean_password_spec(clean_password_spec(s)) == clean_password_spec(s),
{
    let p = |c: char| is_pass_char(c);
    let pa = |c: char| is_pass_char(c) && ascii_char(c);
    let f = s.filter(p);
    let dl = drop_leading(f);
    let t = trim_spec(f);
    assert forall|i: int| 0 <= i < f.len() implies pa(f[i]) by {
        s.lemma_filter_pred(p, i);
        let elem = f[i];
        assert(f.contains(elem));
        s.lemma_filter_contains_rev(p, elem);
        let j = choose|j: int| 0 <= j < s.len() && s[j] == elem;
        assert(ascii_char(s[j]));
    }
    lemma_drop_leading_preserves(f, pa);
    lemma_drop_trailing_preserves(dl, pa);
    assert(ascii_seq(t));
    let y = to_ascii_lower(t);
    assert(lower_of(t) == y);
    assert forall|i: int| 0 <= i < y.len() implies pa(y[i]) && y[i] == ascii_lower_char(y[i])
        && space_char(y[i]) == space_char(t[i]) by {
        lemma_ascii_char_classes(t[i]);
    }
    lemma_filter_all(y, p);
    if y.len() > 0 {
        assert(!space_char(t[0]));
        assert(!space_char(t[t.len() - 1]));
        assert(!space_char(y[0]));
        assert(!space_char(y.last()));
    }
    assert(drop_leading(y) == y);
    assert(drop_trailing(y) == y);
    assert(ascii_seq(y));
    assert(to_ascii_lower(y) =~= y);
    assert(lower_of(y) == y);
}

} // verus!
