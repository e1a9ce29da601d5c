//! Absolute URL paths as sequences of non-empty segments.

use vstd::prelude::*;

verus! {

/// A character that may stand as it is in the path of a URI.
pub open spec fn is_uri_path_char(c: char) -> bool {
    let u = c as u32;
    u == 0x21 || u == 0x22 || (0x24 <= u && u <= 0x3B) || u == 0x3D || (0x40 <= u && u <= 0x5F)
        || u >= 0x61
}

/// A character that may stand as it is in the query of a URI.
pub open spec fn is_uri_query_char(c: char) -> bool {
    let u = c as u32;
    u == 0x21 || (0x24 <= u && u <= 0x3B) || u == 0x3D || u >= 0x3F
}

/// Number of leading characters before the first `?` or `#`.
pub open spec fn path_len(s: Seq<char>) -> nat
    decreases s.len(),
{
    if s.len() == 0 || s[0] == '?' || s[0] == '#' {
        0
    } else {
        1 + path_len(s.drop_first())
    }
}

/// The query text (after `?`) is well formed up to the first `#`.
pub open spec fn query_ok(q: Seq<char>) -> bool
    decreases q.len(),
{
    q.len() == 0 || q[0] == '#' || (is_uri_query_char(q[0]) && query_ok(q.drop_first()))
}

/// The path component of a path-and-query text, or `None` when the text is
/// not a valid path-and-query. An empty path reads as `/`.
pub open spec fn uri_path_of(s: Seq<char>) -> Option<Seq<char>> {
    let n = path_len(s) as int;
    if (forall|i: int| 0 <= i < n ==> is_uri_path_char(#[trigger] s[i])) && (n == s.len() || s[n]
        == '#' || query_ok(s.subrange(n + 1, s.len() as int))) {
        Some(
            if n == 0 {
                seq!['/']
            } else {
                s.subrange(0, n)
            },
        )
    } else {
        None
    }
}

/// Splits `p` on `/`, with `cur` the segment read so far; empty pieces are dropped.
pub open spec fn split_from(p: Seq<char>, cur: Seq<char>) -> Seq<Seq<char>>
    decreases p.len(),
{
    if p.len() == 0 {
        if cur.len() == 0 {
            seq![]
        } else {
            seq![cur]
        }
    } else if p[0] == '/' {
        (if cur.len() == 0 {
            seq![]
        } else {
            seq![cur]
        }) + split_from(p.drop_first(), seq![])
    } else {
        split_from(p.drop_first(), cur.push(p[0]))
    }
}

/// The non-empty `/`-separated pieces of `p`, in order.
pub open spec fn segments_of(p: Seq<char>) -> Seq<Seq<char>> {
    split_from(p, seq![])
}

/// The segments that parsing `s` yields, or `None` when `s` is rejected.
pub open spec fn parse_segments(s: Seq<char>) -> Option<Seq<Seq<char>>> {
    match uri_path_of(s) {
        Some(p) => Some(segments_of(p)),
        None => None,
    }
}

/// Each segment followed by a `/`.
pub open spec fn slashed(segs: Seq<Seq<char>>) -> Seq<char>
    decreases segs.len(),
{
    if segs.len() == 0 {
        seq![]
    } else {
        slashed(segs.drop_last()) + segs.last() + seq!['/']
    }
}

/// The segments joined by `/`.
pub open spec fn joined(segs: Seq<Seq<char>>) -> Seq<char>
    decreases segs.len(),
{
    if segs.len() == 0 {
        seq![]
    } else if segs.len() == 1 {
        segs[0]
    } else {
        joined(segs.drop_last()) + seq!['/'] + segs.last()
    }
}

/// Absolute directory form: a leading and a trailing `/` around the joined segments.
pub open spec fn dir_form(segs: Seq<Seq<char>>) -> Seq<char> {
    seq!['/'] + slashed(segs)
}

/// Absolute file form: a leading `/` and no trailing one; `None` for the root.
pub open spec fn file_form(segs: Seq<Seq<char>>) -> Option<Seq<char>> {
    if segs.len() == 0 {
        None
    } else {
        Some(seq!['/'] + joined(segs))
    }
}

/// Segments as every parsed path holds them: non-empty, without `/`, and made of
/// characters allowed in a URI path.
pub open spec fn well_formed_segments(segs: Seq<Seq<char>>) -> bool {
    forall|k: int|
        0 <= k < segs.len() ==> {
            &&& (#[trigger] segs[k]).len() > 0
            &&& forall|j: int|
                0 <= j < segs[k].len() ==> #[trigger] segs[k][j] != '/' && is_uri_path_char(
                    segs[k][j],
                )
        }
}

/// No two `/` stand next to each other.
pub open spec fn no_double_slash(t: Seq<char>) -> bool {
    forall|i: int| 0 <= i < t.len() - 1 ==> !(#[trigger] t[i] == '/' && t[i + 1] == '/')
}

/// Why a text is not a URL path.
#[derive(Debug, Clone, Copy, PartialEq, Eq, Structural)]
pub enum ParseError {
    /// The text breaks the path-and-query syntax of a URI.
    InvalidUri,
}

/// http's `InvalidUri`, the error of a rejected path-and-query; it is only mapped to
/// [`ParseError`], never looked into.
#[verifier::external_type_specification]
#[verifier::external_body]
pub struct ExInvalidUri(http::uri::InvalidUri);

/// Relies on http's `PathAndQuery::from_str`, which accepts the text when its path
/// (up to the first `?` or `#`) and its query (up to the first `#`) hold only the
/// characters its scanner admits, and on `PathAndQuery::path`, which returns that
/// path, or `/` when it is empty. The parser keeps the byte position of the `?` that
/// opens the query in a `u16`, hence the bound on that position.
#[verifier::external_body]
fn uri_path(s: &str) -> (r: Result<String, http::uri::InvalidUri>)
    requires
        path_len(s@) < s@.len() && s@[path_len(s@) as int] == '?' ==> utf8_len(
            s@.subrange(0, path_len(s@) as int),
        ) < 65535,
    ensures
        r is Ok <==> uri_path_of(s@) is Some,
        r matches Ok(p) ==> uri_path_of(s@) == Some(p@),
{
    s.parse::<http::uri::PathAndQuery>().map(|p| p.path().to_string())
}

/// The number of characters before the first `?` or `#` of `s`.
fn path_end(s: &str) -> (r: usize)
    ensures
        r == path_len(s@),
{
    let n = s.unicode_len();
    let mut i: usize = 0;
    let mut done = false;
    while !done && i < n
        invariant
            i <= n,
            n == s@.len(),
            forall|k: int| 0 <= k < i ==> s@[k] != '?' && s@[k] != '#',
            done ==> i < n && (s@[i as int] == '?' || s@[i as int] == '#'),
        decreases n - i + (if done {
            0int
        } else {
            1int
        }),
    {
        let c = s.get_char(i);
        if c == '?' || c == '#' {
            done = true;
        } else {
            i = i + 1;
        }
    }
    proof {
        lemma_path_len_at(s@, i as int);
    }
    i
}

/// `path_len` is the position of the first `?` or `#`.
proof fn lemma_path_len_at(s: Seq<char>, i: int)
    requires
        0 <= i <= s.len(),
        forall|k: int| 0 <= k < i ==> s[k] != '?' && s[k] != '#',
        i == s.len() || s[i] == '?' || s[i] == '#',
    ensures
        path_len(s) == i,
    decreases i,
{
    if i > 0 {
        let t = s.drop_first();
        assert(forall|k: int| 0 <= k < i - 1 ==> t[k] == s[k + 1]);
        lemma_path_len_at(t, i - 1);
    }
}

/// Splits `p` on `/` into its non-empty segments.
fn split_segments(p: &str) -> (r: Vec<String>)
    ensures
        r@.map_values(|x: String| x@) == segments_of(p@),
{
    let n = p.unicode_len();
    let mut out: Vec<String> = Vec::new();
    let mut start: usize = 0;
    let mut i: usize = 0;
    proof {
        assert(p@.subrange(0, 0) =~= Seq::<char>::empty());
        assert(p@.subrange(0, n as int) =~= p@);
        assert(out@.map_values(|x: String| x@) + segments_of(p@) =~= segments_of(p@));
    }
    while i < n
        invariant
            n == p@.len(),
            start <= i <= n,
            out@.map_values(|x: String| x@) + split_from(
                p@.subrange(i as int, n as int),
                p@.subrange(start as int, i as int),
            ) == segments_of(p@),
        decreases n - i,
    {
        let c = p.get_char(i);
        let ghost rest = p@.subrange(i as int, n as int);
        let ghost cur = p@.subrange(start as int, i as int);
        assert(rest.drop_first() =~= p@.subrange(i + 1, n as int));
        if c == '/' {
            if start < i {
                let seg = p.substring_char(start, i).to_owned();
                let ghost before = out@.map_values(|x: String| x@);
                out.push(seg);
                assert(out@.map_values(|x: String| x@) =~= before + seq![cur]);
                assert(before + seq![cur] + split_from(rest.drop_first(), seq![]) =~= before + (
                seq![cur] + split_from(rest.drop_first(), seq![])));
            } else {
                assert(cur.len() == 0);
                assert(seq![] + split_from(rest.drop_first(), seq![]) =~= split_from(
                    rest.drop_first(),
                    seq![],
                ));
            }
            assert(p@.subrange((i + 1) as int, (i + 1) as int) =~= Seq::<char>::empty());
            start = i + 1;
        } else {
            assert(cur.push(c) =~= p@.subrange(start as int, i + 1));
        }
        i = i + 1;
    }
    proof {
        let before = out@.map_values(|x: String| x@);
        let cur = p@.subrange(start as int, n as int);
        assert(p@.subrange(n as int, n as int).len() == 0);
        if cur.len() == 0 {
            assert(before + seq![] =~= before);
        }
    }
    if start < n {
        let seg = p.substring_char(start, n).to_owned();
        let ghost before = out@.map_values(|x: String| x@);
        out.push(seg);
        assert(out@.map_values(|x: String| x@) =~= before + seq![seg@]);
    }
    out
}

/// An absolute path, made of non-empty segments that never hold `/`.
#[derive(Debug)]
pub struct UrlPath {
    segments: Vec<String>,
}

impl View for UrlPath {
    type V = Seq<Seq<char>>;

    closed spec fn view(&self) -> Seq<Seq<char>> {
        self.segments@.map_values(|x: String| x@)
    }
}

/// Builds the absolute directory form of `segments`.
fn dir_path_of(segments: &Vec<String>) -> (r: String)
    ensures
        r@ == dir_form(segments@.map_values(|x: String| x@)),
{
    let ghost segs = segments@.map_values(|x: String| x@);
    let mut buf = String::new();
    buf.append("/");
    proof {
        reveal_strlit("/");
        assert(segs.subrange(0, 0) =~= Seq::<Seq<char>>::empty());
        assert(buf@ =~= dir_form(segs.subrange(0, 0)));
    }
    let mut i: usize = 0;
    while i < segments.len()
        invariant
            i <= segments@.len(),
            segs == segments@.map_values(|x: String| x@),
            buf@ == dir_form(segs.subrange(0, i as int)),
        decreases segments@.len() - i,
    {
        proof {
            assert(segs.subrange(0, i + 1).drop_last() =~= segs.subrange(0, i as int));
            assert(segs.subrange(0, i + 1).last() == segs[i as int]);
            assert(segs[i as int] == segments@[i as int]@);
            reveal_strlit("/");
        }
        buf.append(segments[i].as_str());
        buf.append("/");
        proof {
            assert(buf@ =~= dir_form(segs.subrange(0, i + 1)));
        }
        i = i + 1;
    }
    assert(segs.subrange(0, segments@.len() as int) =~= segs);
    buf
}

impl UrlPath {
    /// Every segment is non-empty, holds no `/`, and is made of URI path characters.
    #[verifier::type_invariant]
    spec fn inv(&self) -> bool {
        well_formed_segments(self@)
    }

    /// Parses a path-and-query text: the query is dropped, and the path is split on
    /// `/` with empty pieces discarded. Only a text that breaks the URI syntax fails.
    pub fn parse(s: &str) -> (r: Result<UrlPath, ParseError>)
        ensures
            match parse_segments(s@) {
                Some(segs) => r matches Ok(u) && u@ == segs,
                None => r == Err::<UrlPath, ParseError>(ParseError::InvalidUri),
            },
            r matches Ok(u) ==> well_formed_segments(u@),
    {
        let n = path_end(s);
        let len = s.unicode_len();
        proof {
            lemma_path_len_bounds(s@);
        }
        let path_text = s.substring_char(0, n);
        proof {
            let pt = path_text@;
            assert(forall|i: int| 0 <= i < n ==> pt[i] == s@[i]);
            lemma_path_len_full(pt);
            if forall|i: int| 0 <= i < n ==> is_uri_path_char(#[trigger] s@[i]) {
                assert forall|i: int| 0 <= i < n implies is_uri_path_char(#[trigger] pt[i]) by {
                    assert(pt[i] == s@[i]);
                }
            }
            if forall|i: int| 0 <= i < n ==> is_uri_path_char(#[trigger] pt[i]) {
                assert forall|i: int| 0 <= i < n implies is_uri_path_char(#[trigger] s@[i]) by {
                    assert(pt[i] == s@[i]);
                }
            }
            if n == 0 {
                assert(uri_path_of(pt) == Some(seq!['/']));
            } else {
                assert(pt.subrange(0, n as int) =~= pt);
            }
            if n == len || s@[n as int] == '#' {
                assert(uri_path_of(s@) == uri_path_of(pt));
            } else {
                assert(uri_path_of(s@) is Some <==> (uri_path_of(pt) is Some && query_ok(
                    s@.subrange(n + 1, len as int),
                )));
                assert(uri_path_of(s@) is Some ==> uri_path_of(s@) == uri_path_of(pt));
            }
        }
        let p = match uri_path(path_text) {
            Ok(p) => p,
            Err(_) => {
                return Err(ParseError::InvalidUri);
            },
        };
        if n < len && s.get_char(n) == '?' {
            let mut query_text = String::new();
            query_text.append("?");
            query_text.append(s.substring_char(n + 1, len));
            proof {
                reveal_strlit("?");
                let q = query_text@;
                assert(q[0] == '?');
                assert(path_len(q) == 0);
                assert(q.subrange(0, 0) =~= Seq::<char>::empty());
                assert(vstd::utf8::encode_utf8(Seq::<char>::empty()) =~= Seq::<u8>::empty());
                assert(q.subrange(1, q.len() as int) =~= s@.subrange(n + 1, len as int));
            }
            if uri_path(query_text.as_str()).is_err() {
                return Err(ParseError::InvalidUri);
            }
            assert(query_ok(s@.subrange(n + 1, len as int)));
        }
        assert(uri_path_of(s@) == Some(p@));
        proof {
            if n == 0 {
                assert(p@ == seq!['/']);
            } else {
                assert(p@ =~= s@.subrange(0, n as int));
            }
            assert(forall|i: int| 0 <= i < p@.len() ==> is_uri_path_char(#[trigger] p@[i]));
            lemma_split_well_formed(p@, seq![]);
        }
        Ok(UrlPath { segments: split_segments(p.as_str()) })
    }

    /// Whether this is the root path, with no segment.
    pub fn is_empty(&self) -> (r: bool)
        ensures
            r == (self@.len() == 0),
    {
        self.segments.len() == 0
    }

    /// The absolute form of a file path: `/` then the segments joined by `/`;
    /// `None` for the root.
    pub fn to_absolute_path(&self) -> (r: Option<String>)
        ensures
            r matches Some(s) ==> file_form(self@) == Some(s@),
            r is None <==> file_form(self@) is None,
            r matches Some(s) ==> s@[0] == '/' && s@.last() != '/' && s@.push('/') == dir_form(
                self@,
            ),
    {
        proof {
            use_type_invariant(self);
        }
        if self.segments.len() == 0 {
            return None;
        }
        let buf = dir_path_of(&self.segments);
        proof {
            lemma_slashed_joined(self@);
        }
        let n = buf.as_str().unicode_len();
        let s = buf.as_str().substring_char(0, n - 1).to_owned();
        assert(s@ =~= seq!['/'] + joined(self@));
        proof {
            lemma_joined_ends(self@);
            assert(s@.push('/') =~= dir_form(self@));
        }
        Some(s)
    }

    /// The absolute directory form: `/`, then each segment followed by `/`.
    pub fn to_absolute_dir_path(&self) -> (r: String)
        ensures
            r@ == dir_form(self@),
            r@[0] == '/' && r@.last() == '/',
            no_double_slash(r@),
            r@ == seq!['/'] <==> self@.len() == 0,
    {
        proof {
            use_type_invariant(self);
            lemma_dir_form_shape(self@);
        }
        dir_path_of(&self.segments)
    }

    /// The segments joined by `/`, without a leading or trailing `/`; empty for the root.
    pub fn to_string(&self) -> (r: String)
        ensures
            r@ == joined(self@),
            r@.len() == 0 <==> self@.len() == 0,
            r@.len() > 0 ==> r@[0] != '/' && r@.last() != '/',
    {
        proof {
            use_type_invariant(self);
            if self@.len() > 0 {
                lemma_joined_ends(self@);
            }
        }
        if self.segments.len() == 0 {
            return String::new();
        }
        let buf = dir_path_of(&self.segments);
        proof {
            lemma_slashed_joined(self@);
        }
        let n = buf.as_str().unicode_len();
        let s = buf.as_str().substring_char(1, n - 1).to_owned();
        assert(s@ =~= joined(self@));
        s
    }
}

/// A copy of the segments.
fn clone_segments(v: &Vec<String>) -> (r: Vec<String>)
    ensures
        r@.map_values(|x: String| x@) == v@.map_values(|x: String| x@),
{
    let mut r: Vec<String> = Vec::new();
    let mut i: usize = 0;
    while i < v.len()
        invariant
            i <= v@.len(),
            r@.len() == i,
            forall|j: int| 0 <= j < i ==> (#[trigger] r@[j])@ == v@[j]@,
        decreases v@.len() - i,
    {
        r.push(v[i].clone());
        i = i + 1;
    }
    assert(r@.map_values(|x: String| x@) =~= v@.map_values(|x: String| x@));
    r
}

impl Clone for UrlPath {
    fn clone(&self) -> (r: UrlPath)
        ensures
            r@ == self@,
    {
        proof {
            use_type_invariant(self);
        }
        UrlPath { segments: clone_segments(&self.segments) }
    }
}

impl core::str::FromStr for UrlPath {
    type Err = ParseError;

    fn from_str(s: &str) -> Result<UrlPath, ParseError> {
        UrlPath::parse(s)
    }
}

/// A path that always denotes a directory.
#[derive(Debug)]
pub struct UrlDirPath {
    segments: Vec<String>,
}

impl View for UrlDirPath {
    type V = Seq<Seq<char>>;

    closed spec fn view(&self) -> Seq<Seq<char>> {
        self.segments@.map_values(|x: String| x@)
    }
}

impl UrlDirPath {
    /// Every segment is non-empty, holds no `/`, and is made of URI path characters.
    #[verifier::type_invariant]
    spec fn inv(&self) -> bool {
        well_formed_segments(self@)
    }

    /// Takes over the segments of `path`.
    pub fn from_path(path: UrlPath) -> (r: UrlDirPath)
        ensures
            r@ == path@,
            well_formed_segments(r@),
    {
        proof {
            use_type_invariant(&path);
        }
        UrlDirPath { segments: path.segments }
    }

    /// Parses a text as [`UrlPath::parse`] does.
    pub fn parse(s: &str) -> (r: Result<UrlDirPath, ParseError>)
        ensures
            match parse_segments(s@) {
                Some(segs) => r matches Ok(u) && u@ == segs,
                None => r == Err::<UrlDirPath, ParseError>(ParseError::InvalidUri),
            },
            r matches Ok(u) ==> well_formed_segments(u@),
    {
        match UrlPath::parse(s) {
            Ok(p) => Ok(UrlDirPath::from_path(p)),
            Err(e) => Err(e),
        }
    }

    /// Whether this is the root directory.
    pub fn is_empty(&self) -> (r: bool)
        ensures
            r == (self@.len() == 0),
    {
        self.segments.len() == 0
    }

    /// The absolute directory form, `/` for the root.
    pub fn to_string(&self) -> (r: String)
        ensures
            r@ == dir_form(self@),
            r@[0] == '/' && r@.last() == '/',
            no_double_slash(r@),
            r@ == seq!['/'] <==> self@.len() == 0,
    {
        proof {
            use_type_invariant(self);
            lemma_dir_form_shape(self@);
        }
        dir_path_of(&self.segments)
    }
}

impl Clone for UrlDirPath {
    fn clone(&self) -> (r: UrlDirPath)
        ensures
            r@ == self@,
    {
        proof {
            use_type_invariant(self);
        }
        UrlDirPath { segments: clone_segments(&self.segments) }
    }
}

impl core::str::FromStr for UrlDirPath {
    type Err = ParseError;

    fn from_str(s: &str) -> Result<UrlDirPath, ParseError> {
        UrlDirPath::parse(s)
    }
}

impl Default for UrlDirPath {
    fn default() -> (r: UrlDirPath)
        ensures
            r@.len() == 0,
    {
        let r = UrlDirPath { segments: Vec::new() };
        assert(r@ =~= Seq::<Seq<char>>::empty());
        r
    }
}

/// For non-empty segments, each followed by `/` is the same as them joined and a final `/`.
pub proof fn lemma_slashed_joined(segs: Seq<Seq<char>>)
    requires
        segs.len() > 0,
    ensures
        slashed(segs) == joined(segs) + seq!['/'],
    decreases segs.len(),
{
    if segs.len() == 1 {
        assert(segs.drop_last() =~= Seq::<Seq<char>>::empty());
        assert(slashed(segs.drop_last()) =~= Seq::<char>::empty());
        assert(slashed(segs) =~= joined(segs) + seq!['/']);
    } else {
        lemma_slashed_joined(segs.drop_last());
        assert(slashed(segs) =~= joined(segs) + seq!['/']);
    }
}

/// Splitting a text without `/` only extends the segment being read.
proof fn lemma_split_no_slash(seg: Seq<char>, cur: Seq<char>)
    requires
        forall|j: int| 0 <= j < seg.len() ==> seg[j] != '/',
    ensures
        split_from(seg, cur) == (if (cur + seg).len() == 0 {
            Seq::<Seq<char>>::empty()
        } else {
            seq![cur + seg]
        }),
    decreases seg.len(),
{
    if seg.len() == 0 {
        assert(cur + seg =~= cur);
    } else {
        assert(forall|j: int| 0 <= j < seg.drop_first().len() ==> seg.drop_first()[j] == seg[j + 1]);
        lemma_split_no_slash(seg.drop_first(), cur.push(seg[0]));
        assert(cur.push(seg[0]) + seg.drop_first() =~= cur + seg);
    }
}

/// A `/` ends the segment being read: what precedes and what follows split apart.
proof fn lemma_split_at_slash(a: Seq<char>, b: Seq<char>, cur: Seq<char>)
    ensures
        split_from(a + seq!['/'] + b, cur) == split_from(a, cur) + split_from(b, seq![]),
    decreases a.len(),
{
    let t = a + seq!['/'] + b;
    if a.len() == 0 {
        assert(t.drop_first() =~= b);
        assert(t[0] == '/');
    } else {
        assert(t.drop_first() =~= a.drop_first() + seq!['/'] + b);
        assert(t[0] == a[0]);
        if a[0] == '/' {
            lemma_split_at_slash(a.drop_first(), b, seq![]);
        } else {
            lemma_split_at_slash(a.drop_first(), b, cur.push(a[0]));
        }
    }
}

/// Splitting the joined form of well-formed segments gives them back.
proof fn lemma_split_joined(segs: Seq<Seq<char>>)
    requires
        well_formed_segments(segs),
    ensures
        segments_of(joined(segs)) == segs,
    decreases segs.len(),
{
    if segs.len() == 0 {
    } else if segs.len() == 1 {
        assert(segs[0].len() > 0);
        lemma_split_no_slash(segs[0], seq![]);
        assert(Seq::<char>::empty() + segs[0] =~= segs[0]);
        assert(seq![segs[0]] =~= segs);
    } else {
        let init = segs.drop_last();
        assert(forall|k: int| 0 <= k < init.len() ==> init[k] == segs[k]);
        lemma_split_joined(init);
        lemma_split_at_slash(joined(init), segs.last(), seq![]);
        assert(segs.last() == segs[segs.len() - 1]);
        lemma_split_no_slash(segs.last(), seq![]);
        assert(Seq::<char>::empty() + segs.last() =~= segs.last());
        assert(init + seq![segs.last()] =~= segs);
    }
}

/// Every character of the joined form is `/` or a character of a segment.
proof fn lemma_joined_chars(segs: Seq<Seq<char>>)
    requires
        well_formed_segments(segs),
    ensures
        forall|i: int|
            0 <= i < joined(segs).len() ==> is_uri_path_char(#[trigger] joined(segs)[i])
                && joined(segs)[i] != '?' && joined(segs)[i] != '#',
    decreases segs.len(),
{
    if segs.len() == 1 {
        assert forall|i: int| 0 <= i < joined(segs).len() implies is_uri_path_char(
            #[trigger] joined(segs)[i],
        ) by {
            assert(segs[0][i] != '/');
        }
    } else if segs.len() > 1 {
        let init = segs.drop_last();
        assert(forall|k: int| 0 <= k < init.len() ==> init[k] == segs[k]);
        lemma_joined_chars(init);
        let j = joined(segs);
        let lj = joined(init);
        let last = segs.last();
        assert(last == segs[segs.len() - 1]);
        assert forall|i: int| 0 <= i < j.len() implies is_uri_path_char(#[trigger] j[i]) by {
            if i < lj.len() {
                assert(j[i] == lj[i]);
            } else if i == lj.len() {
                assert(j[i] == '/');
            } else {
                assert(j[i] == last[i - lj.len() - 1]);
            }
        }
    }
}

/// A text without `?` or `#` is all path.
proof fn lemma_path_len_full(t: Seq<char>)
    requires
        forall|i: int| 0 <= i < t.len() ==> t[i] != '?' && t[i] != '#',
    ensures
        path_len(t) == t.len(),
    decreases t.len(),
{
    if t.len() > 0 {
        assert(forall|i: int| 0 <= i < t.drop_first().len() ==> t.drop_first()[i] == t[i + 1]);
        lemma_path_len_full(t.drop_first());
    }
}

/// The characters before `path_len(s)` are neither `?` nor `#`.
proof fn lemma_path_len_bounds(s: Seq<char>)
    ensures
        path_len(s) <= s.len(),
        forall|i: int| 0 <= i < path_len(s) ==> s[i] != '?' && s[i] != '#',
        path_len(s) < s.len() ==> s[path_len(s) as int] == '?' || s[path_len(s) as int] == '#',
    decreases s.len(),
{
    if s.len() > 0 && s[0] != '?' && s[0] != '#' {
        lemma_path_len_bounds(s.drop_first());
        if path_len(s) < s.len() {
            assert(s[path_len(s) as int] == s.drop_first()[path_len(s.drop_first()) as int]);
        }
        assert forall|i: int| 0 <= i < path_len(s) implies s[i] != '?' && s[i] != '#' by {
            if i > 0 {
                assert(s[i] == s.drop_first()[i - 1]);
            }
        }
    }
}

/// Splitting a text made of URI path characters yields well-formed segments.
proof fn lemma_split_well_formed(p: Seq<char>, cur: Seq<char>)
    requires
        forall|i: int| 0 <= i < p.len() ==> is_uri_path_char(#[trigger] p[i]),
        forall|j: int| 0 <= j < cur.len() ==> #[trigger] cur[j] != '/' && is_uri_path_char(cur[j]),
    ensures
        well_formed_segments(split_from(p, cur)),
    decreases p.len(),
{
    if p.len() == 0 {
    } else {
        let rest = p.drop_first();
        assert(forall|i: int| 0 <= i < rest.len() ==> rest[i] == p[i + 1]);
        if p[0] == '/' {
            lemma_split_well_formed(rest, seq![]);
            let head: Seq<Seq<char>> = if cur.len() == 0 {
                seq![]
            } else {
                seq![cur]
            };
            let tail = split_from(rest, seq![]);
            assert forall|k: int| 0 <= k < (head + tail).len() implies {
                &&& (#[trigger] (head + tail)[k]).len() > 0
                &&& forall|j: int|
                    0 <= j < (head + tail)[k].len() ==> #[trigger] (head + tail)[k][j] != '/'
                        && is_uri_path_char((head + tail)[k][j])
            } by {
                if k < head.len() {
                    assert((head + tail)[k] == cur);
                } else {
                    assert((head + tail)[k] == tail[k - head.len()]);
                }
            }
        } else {
            let c2 = cur.push(p[0]);
            assert(forall|j: int| 0 <= j < cur.len() ==> c2[j] == cur[j]);
            lemma_split_well_formed(rest, c2);
        }
    }
}

/// The number of bytes of the UTF-8 encoding.
pub open spec fn utf8_len(s: Seq<char>) -> nat {
    vstd::utf8::encode_utf8(s).len()
}

/// Joining one more segment in front adds it and a `/`.
proof fn lemma_joined_front(c: Seq<char>, x: Seq<Seq<char>>)
    ensures
        joined(seq![c] + x) == if x.len() == 0 {
            c
        } else {
            c + seq!['/'] + joined(x)
        },
    decreases x.len(),
{
    let cx = seq![c] + x;
    if x.len() == 1 {
        assert(cx.drop_last() =~= seq![c]);
        assert(cx.last() == x[0]);
        assert(joined(seq![c]) == c);
        assert(joined(x) == x[0]);
        assert(joined(cx) == joined(cx.drop_last()) + seq!['/'] + cx.last());
    } else if x.len() > 1 {
        assert(cx.drop_last() =~= seq![c] + x.drop_last());
        assert(cx.last() == x.last());
        lemma_joined_front(c, x.drop_last());
        assert(c + seq!['/'] + joined(x.drop_last()) + seq!['/'] + x.last() =~= c + seq!['/'] + (
        joined(x.drop_last()) + seq!['/'] + x.last()));
    } else {
        assert(cx =~= seq![c]);
    }
}

/// Rendering a parsed path and parsing that text again yields the same segments:
/// parsing the rendered form is idempotent.
pub proof fn lemma_parse_render_idempotent(s: Seq<char>)
    requires
        parse_segments(s) is Some,
    ensures
        parse_segments(joined(parse_segments(s)->Some_0)) == parse_segments(s),
{
    let segs = parse_segments(s)->Some_0;
    let n = path_len(s) as int;
    lemma_path_len_bounds(s);
    let p = uri_path_of(s)->Some_0;
    // the parsed segments are well formed
    if n == 0 {
        assert(p == seq!['/']);
    } else {
        assert(p =~= s.subrange(0, n));
    }
    assert(forall|i: int| 0 <= i < p.len() ==> is_uri_path_char(#[trigger] p[i]));
    lemma_split_well_formed(p, seq![]);
    // the rendered text is all path
    let t = joined(segs);
    lemma_joined_chars(segs);
    lemma_path_len_full(t);
    lemma_split_joined(segs);
    if segs.len() == 0 {
        assert(t.len() == 0);
        assert(uri_path_of(t) == Some(seq!['/']));
        assert(seq!['/'].drop_first() =~= Seq::<char>::empty());
        assert(segments_of(seq!['/']) =~= Seq::<Seq<char>>::empty());
    } else {
        assert(t.len() > 0) by {
            assert(segs[0].len() > 0);
            if segs.len() > 1 {
                lemma_joined_front(segs[0], segs.drop_first());
                assert(seq![segs[0]] + segs.drop_first() =~= segs);
            }
        }
        assert(t.subrange(0, t.len() as int) =~= t);
    }
}

/// The joined form of well-formed segments starts with the first segment's first
/// character and ends with the last segment's last one.
proof fn lemma_joined_ends(segs: Seq<Seq<char>>)
    requires
        well_formed_segments(segs),
        segs.len() > 0,
    ensures
        joined(segs).len() > 0,
        joined(segs)[0] == segs[0][0],
        joined(segs).last() == segs.last().last(),
        joined(segs)[0] != '/' && joined(segs).last() != '/',
    decreases segs.len(),
{
    assert(segs[0].len() > 0 && segs[0][0] != '/');
    let last = segs.last();
    assert(last == segs[segs.len() - 1]);
    assert(last.len() > 0 && last.last() != '/') by {
        assert(last[last.len() - 1] != '/');
    }
    if segs.len() > 1 {
        let init = segs.drop_last();
        assert(forall|k: int| 0 <= k < init.len() ==> init[k] == segs[k]);
        lemma_joined_ends(init);
    }
}

/// Each well-formed segment followed by `/`: no `//`, and, unless empty, it starts
/// with a character other than `/` and ends with `/`.
proof fn lemma_slashed_shape(segs: Seq<Seq<char>>)
    requires
        well_formed_segments(segs),
    ensures
        no_double_slash(slashed(segs)),
        segs.len() == 0 <==> slashed(segs).len() == 0,
        segs.len() > 0 ==> slashed(segs)[0] != '/' && slashed(segs).last() == '/',
    decreases segs.len(),
{
    if segs.len() > 0 {
        let init = segs.drop_last();
        assert(forall|k: int| 0 <= k < init.len() ==> init[k] == segs[k]);
        lemma_slashed_shape(init);
        let sp = slashed(init);
        let last = segs.last();
        assert(last == segs[segs.len() - 1]);
        let t = slashed(segs);
        assert(t == sp + last + seq!['/']);
        assert(last.len() > 0);
        assert(forall|j: int| 0 <= j < last.len() ==> #[trigger] last[j] != '/');
        assert forall|i: int| 0 <= i < t.len() - 1 implies !(#[trigger] t[i] == '/' && t[i + 1]
            == '/') by {
            if i + 1 < sp.len() {
                assert(t[i] == sp[i] && t[i + 1] == sp[i + 1]);
            } else if i + 1 == sp.len() {
                assert(t[i + 1] == last[0]);
            } else if i + 1 < sp.len() + last.len() {
                assert(t[i + 1] == last[i + 1 - sp.len()]);
            } else {
                assert(t[i] == last[last.len() - 1]);
            }
        }
        if sp.len() > 0 {
            assert(t[0] == sp[0]);
        } else {
            assert(t[0] == last[0]);
        }
    }
}

/// The absolute directory form of well-formed segments starts and ends with `/`,
/// has no `//`, and is `/` alone exactly for the root.
proof fn lemma_dir_form_shape(segs: Seq<Seq<char>>)
    requires
        well_formed_segments(segs),
    ensures
        dir_form(segs)[0] == '/' && dir_form(segs).last() == '/',
        no_double_slash(dir_form(segs)),
        dir_form(segs) == seq!['/'] <==> segs.len() == 0,
{
    lemma_slashed_shape(segs);
    let sl = slashed(segs);
    let d = dir_form(segs);
    assert(d == seq!['/'] + sl);
    assert forall|i: int| 0 <= i < d.len() - 1 implies !(#[trigger] d[i] == '/' && d[i + 1] == '/') by {
        if i == 0 {
            assert(d[1] == sl[0]);
        } else {
            assert(d[i] == sl[i - 1] && d[i + 1] == sl[i]);
        }
    }
    if segs.len() == 0 {
        assert(d =~= seq!['/']);
    } else {
        assert(d.len() > 1);
        assert(d.last() == sl.last());
    }
}

} // verus!
