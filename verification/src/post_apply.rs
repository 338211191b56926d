//! The produced artifact: the original graph description with the freshly
//! created playlists' references spliced into the corresponding node
//! declarations, preserving all other formatting.
//!
//! The text is handled character by character: the body between the first
//! `{` and the following `}` is split on `;`, the declaration statement of
//! each newly created node is found by its (possibly quoted) name, and a
//! `URL` attribute is inserted into its attribute list — or a fresh list is
//! appended when the statement has none.

use vstd::prelude::*;

use crate::errors::Error;
use crate::tracks::has_id;

verus! {

/// The position of the first occurrence of `c`.
pub open spec fn first_index_of(s: Seq<char>, c: char) -> Option<int>
    decreases s.len(),
{
    if s.len() == 0 {
        None
    } else if s[0] == c {
        Some(0int)
    } else {
        match first_index_of(s.skip(1), c) {
            Some(i) => Some(i + 1),
            None => None,
        }
    }
}

pub proof fn lemma_first_index_props(s: Seq<char>, c: char)
    ensures
        first_index_of(s, c) matches Some(i) ==> 0 <= i < s.len() && s[i] == c && forall|j: int|
            0 <= j < i ==> s[j] != c,
        first_index_of(s, c) is None ==> forall|j: int| 0 <= j < s.len() ==> s[j] != c,
    decreases s.len(),
{
    if s.len() > 0 {
        lemma_first_index_props(s.skip(1), c);
        assert(forall|j: int| 1 <= j < s.len() ==> s[j] == s.skip(1)[j - 1]);
    }
}

proof fn lemma_first_index_least(s: Seq<char>, c: char, i: int)
    requires
        0 <= i < s.len(),
        s[i] == c,
        forall|j: int| 0 <= j < i ==> s[j] != c,
    ensures
        first_index_of(s, c) == Some(i),
    decreases i,
{
    if i > 0 {
        assert(forall|j: int| 0 <= j < i - 1 ==> s.skip(1)[j] == s[j + 1]);
        assert(s.skip(1)[i - 1] == s[i]);
        lemma_first_index_least(s.skip(1), c, i - 1);
    }
}

/// Finds the first occurrence of `c`.
pub fn index_of_char(v: &Vec<char>, c: char) -> (r: Option<usize>)
    ensures
        r matches Some(u) ==> first_index_of(v@, c) == Some(u as int),
        r is None <==> first_index_of(v@, c) is None,
{
    let n = v.len();
    let mut i: usize = 0;
    while i < n
        invariant
            i <= n,
            n == v@.len(),
            forall|j: int| 0 <= j < i ==> v@[j] != c,
        decreases n - i,
    {
        if v[i] == c {
            proof {
                lemma_first_index_least(v@, c, i as int);
            }
            return Some(i);
        }
        i = i + 1;
    }
    proof {
        lemma_first_index_props(v@, c);
    }
    None
}

/// A copy of the characters.
pub fn clone_chars(v: &Vec<char>) -> (r: Vec<char>)
    ensures
        r@ == v@,
{
    let n = v.len();
    let mut out: Vec<char> = Vec::new();
    let mut i: usize = 0;
    while i < n
        invariant
            i <= n,
            n == v@.len(),
            out@ == v@.take(i as int),
        decreases n - i,
    {
        out.push(v[i]);
        proof {
            assert(out@ =~= v@.take(i as int + 1));
        }
        i = i + 1;
    }
    proof {
        assert(v@.take(n as int) =~= v@);
    }
    out
}

/// The characters from `from` (inclusive) to `to` (exclusive).
pub fn subrange_chars(v: &Vec<char>, from: usize, to: usize) -> (r: Vec<char>)
    requires
        from <= to <= v@.len(),
    ensures
        r@ == v@.subrange(from as int, to as int),
{
    let mut out: Vec<char> = Vec::new();
    let mut i: usize = from;
    while i < to
        invariant
            from <= i <= to,
            to <= v@.len(),
            out@ == v@.subrange(from as int, i as int),
        decreases to - i,
    {
        out.push(v[i]);
        proof {
            assert(out@ =~= v@.subrange(from as int, i as int + 1));
        }
        i = i + 1;
    }
    out
}

/// Appends `src` onto `dst`.
pub fn extend_chars(dst: &mut Vec<char>, src: &Vec<char>)
    ensures
        final(dst)@ == old(dst)@ + src@,
{
    let n = src.len();
    let mut i: usize = 0;
    while i < n
        invariant
            i <= n,
            n == src@.len(),
            dst@ == old(dst)@ + src@.take(i as int),
        decreases n - i,
    {
        dst.push(src[i]);
        proof {
            assert(dst@ =~= old(dst)@ + src@.take(i as int + 1));
        }
        i = i + 1;
    }
    proof {
        assert(old(dst)@ + src@.take(n as int) =~= old(dst)@ + src@);
    }
}

/// The statement texts between `;` separators, in order; a trailing
/// separator yields a final empty part.
pub open spec fn spec_split(s: Seq<char>, sep: char) -> Seq<Seq<char>>
    decreases s.len(),
{
    match first_index_of(s, sep) {
        None => seq![s],
        Some(i) => {
            if 0 <= i < s.len() {
                seq![s.take(i)] + spec_split(s.skip(i + 1), sep)
            } else {
                seq![s]
            }
        },
    }
}

/// The views of a list of character vectors.
pub open spec fn views_of_chars(v: Seq<Vec<char>>) -> Seq<Seq<char>> {
    v.map_values(|x: Vec<char>| x@)
}

/// Splits on `sep`.
pub fn split_chars(v: &Vec<char>, sep: char) -> (r: Vec<Vec<char>>)
    ensures
        views_of_chars(r@) == spec_split(v@, sep),
    decreases v@.len(),
{
    proof {
        lemma_first_index_props(v@, sep);
    }
    match index_of_char(v, sep) {
        None => {
            let mut out: Vec<Vec<char>> = Vec::new();
            out.push(clone_chars(v));
            proof {
                assert(views_of_chars(out@) =~= spec_split(v@, sep));
            }
            out
        },
        Some(i) => {
            let n = v.len();
            proof {
                lemma_first_index_props(v@, sep);
                assert(i < n);
            }
            let head = subrange_chars(v, 0, i);
            let tail = subrange_chars(v, i + 1, n);
            proof {
                assert(head@ =~= v@.take(i as int));
                assert(tail@ =~= v@.skip(i as int + 1));
            }
            let mut rest = split_chars(&tail, sep);
            rest.insert(0, head);
            proof {
                assert(views_of_chars(rest@) =~= seq![v@.take(i as int)] + spec_split(
                    v@.skip(i as int + 1),
                    sep,
                ));
            }
            rest
        },
    }
}

/// The parts joined by `sep`, in order.
pub open spec fn spec_join_chars_upto(parts: Seq<Seq<char>>, sep: char, k: int) -> Seq<char>
    decreases k,
{
    if k <= 0 {
        Seq::empty()
    } else if k == 1 {
        parts[0]
    } else {
        spec_join_chars_upto(parts, sep, k - 1) + seq![sep] + parts[k - 1]
    }
}

/// The parts joined by `sep`.
pub open spec fn spec_join_chars(parts: Seq<Seq<char>>, sep: char) -> Seq<char> {
    spec_join_chars_upto(parts, sep, parts.len() as int)
}

/// Joins the parts with `sep` between each two.
pub fn join_chars(parts: &Vec<Vec<char>>, sep: char) -> (r: Vec<char>)
    ensures
        r@ == spec_join_chars(views_of_chars(parts@), sep),
{
    let n = parts.len();
    let mut out: Vec<char> = Vec::new();
    let mut i: usize = 0;
    while i < n
        invariant
            i <= n,
            n == parts@.len(),
            out@ == spec_join_chars_upto(views_of_chars(parts@), sep, i as int),
        decreases n - i,
    {
        if i > 0 {
            out.push(sep);
        }
        extend_chars(&mut out, &parts[i]);
        proof {
            assert(views_of_chars(parts@)[i as int] == parts@[i as int]@);
            assert(out@ =~= spec_join_chars_upto(views_of_chars(parts@), sep, i as int + 1));
        }
        i = i + 1;
    }
    out
}

/// Whether the text holds an edge marker `->`.
pub open spec fn spec_has_arrow(s: Seq<char>) -> bool {
    exists|i: int| 0 <= i < s.len() - 1 && (#[trigger] s[i]) == '-' && s[i + 1] == '>'
}

/// Whether the text holds an edge marker `->`.
pub fn has_arrow(v: &Vec<char>) -> (r: bool)
    ensures
        r == spec_has_arrow(v@),
{
    let n = v.len();
    if n < 2 {
        return false;
    }
    let mut i: usize = 0;
    while i < n - 1
        invariant
            n == v@.len(),
            n >= 2,
            i <= n - 1,
            forall|j: int| 0 <= j < i ==> !((#[trigger] v@[j]) == '-' && v@[j + 1] == '>'),
        decreases n - i,
    {
        if v[i] == '-' && v[i + 1] == '>' {
            return true;
        }
        i = i + 1;
    }
    false
}

/// A character the statement lookup ignores at either end.
pub open spec fn is_trim_char(c: char) -> bool {
    c == ' ' || c == '\n'
}

/// The count of ignorable leading characters.
pub open spec fn trim_start_count(s: Seq<char>) -> int
    decreases s.len(),
{
    if s.len() > 0 && is_trim_char(s[0]) {
        1 + trim_start_count(s.skip(1))
    } else {
        0
    }
}

/// The count of ignorable trailing characters.
pub open spec fn trim_end_count(s: Seq<char>) -> int
    decreases s.len(),
{
    if s.len() > 0 && is_trim_char(s.last()) {
        1 + trim_end_count(s.drop_last())
    } else {
        0
    }
}

/// The text with ignorable characters removed from both ends.
pub open spec fn spec_trimmed(s: Seq<char>) -> Seq<char> {
    let a = trim_start_count(s);
    let b = trim_end_count(s);
    if a + b <= s.len() {
        s.subrange(a, s.len() - b)
    } else {
        Seq::empty()
    }
}

proof fn lemma_trim_start_bound(s: Seq<char>)
    ensures
        0 <= trim_start_count(s) <= s.len(),
        forall|j: int| 0 <= j < trim_start_count(s) ==> is_trim_char(s[j]),
        trim_start_count(s) < s.len() ==> !is_trim_char(s[trim_start_count(s)]),
    decreases s.len(),
{
    if s.len() > 0 && is_trim_char(s[0]) {
        lemma_trim_start_bound(s.skip(1));
        assert(forall|j: int| 1 <= j < s.len() ==> s[j] == s.skip(1)[j - 1]);
    }
}

proof fn lemma_trim_end_bound(s: Seq<char>)
    ensures
        0 <= trim_end_count(s) <= s.len(),
        forall|j: int| s.len() - trim_end_count(s) <= j < s.len() ==> is_trim_char(s[j]),
        trim_end_count(s) < s.len() ==> !is_trim_char(s[s.len() - trim_end_count(s) - 1]),
    decreases s.len(),
{
    if s.len() > 0 && is_trim_char(s.last()) {
        lemma_trim_end_bound(s.drop_last());
        assert(forall|j: int| 0 <= j < s.len() - 1 ==> s[j] == s.drop_last()[j]);
    }
}

proof fn lemma_trim_start_eq(s: Seq<char>, a: int)
    requires
        0 <= a <= s.len(),
        forall|j: int| 0 <= j < a ==> is_trim_char(s[j]),
        a < s.len() ==> !is_trim_char(s[a]),
    ensures
        trim_start_count(s) == a,
    decreases a,
{
    if a == 0 {
    } else {
        assert(is_trim_char(s[0]));
        assert(forall|j: int| 0 <= j < a - 1 ==> s.skip(1)[j] == s[j + 1]);
        assert(a - 1 < s.skip(1).len() ==> s.skip(1)[a - 1] == s[a]);
        lemma_trim_start_eq(s.skip(1), a - 1);
    }
}

proof fn lemma_trim_end_eq(s: Seq<char>, b: int)
    requires
        0 <= b <= s.len(),
        forall|j: int| s.len() - b <= j < s.len() ==> is_trim_char(s[j]),
        b < s.len() ==> !is_trim_char(s[s.len() - b - 1]),
    ensures
        trim_end_count(s) == b,
    decreases b,
{
    if b == 0 {
    } else {
        assert(is_trim_char(s.last()));
        assert(forall|j: int| 0 <= j < s.len() - 1 ==> s.drop_last()[j] == s[j]);
        lemma_trim_end_eq(s.drop_last(), b - 1);
    }
}

/// The text with spaces and line breaks removed from both ends.
pub fn trimmed_chars(v: &Vec<char>) -> (r: Vec<char>)
    ensures
        r@ == spec_trimmed(v@),
{
    let n = v.len();
    let mut a: usize = 0;
    while a < n && (v[a] == ' ' || v[a] == '\n')
        invariant
            a <= n,
            n == v@.len(),
            forall|j: int| 0 <= j < a ==> is_trim_char(v@[j]),
        decreases n - a,
    {
        a = a + 1;
    }
    proof {
        lemma_trim_start_eq(v@, a as int);
    }
    let mut b: usize = 0;
    while b < n - a && (v[n - 1 - b] == ' ' || v[n - 1 - b] == '\n')
        invariant
            a <= n,
            b <= n - a,
            n == v@.len(),
            forall|j: int| n - b <= j < n ==> is_trim_char(v@[j]),
        decreases n - a - b,
    {
        b = b + 1;
    }
    if a + b >= n {
        proof {
            if a < n {
                assert(b == n - a);
                assert(is_trim_char(v@[a as int]));
                assert(false);
            }
            if n > 0 {
                lemma_trim_end_eq(v@, n as int);
            }
            assert(spec_trimmed(v@) =~= Seq::<char>::empty());
        }
        Vec::new()
    } else {
        proof {
            lemma_trim_end_eq(v@, b as int);
        }
        subrange_chars(v, a, n - b)
    }
}

/// Whether `p` is a prefix of `s`.
pub open spec fn spec_starts_with(s: Seq<char>, p: Seq<char>) -> bool {
    s.len() >= p.len() && s.take(p.len() as int) == p
}

/// Whether `p` is a prefix of `s`.
pub fn starts_with_chars(s: &Vec<char>, p: &Vec<char>) -> (r: bool)
    ensures
        r == spec_starts_with(s@, p@),
{
    let m = p.len();
    if s.len() < m {
        proof {
            assert(!spec_starts_with(s@, p@));
        }
        return false;
    }
    let mut i: usize = 0;
    while i < m
        invariant
            i <= m,
            m == p@.len(),
            m <= s@.len(),
            forall|j: int| 0 <= j < i ==> s@[j] == p@[j],
        decreases m - i,
    {
        if s[i] != p[i] {
            proof {
                assert(s@.take(m as int)[i as int] == s@[i as int]);
            }
            return false;
        }
        i = i + 1;
    }
    proof {
        assert(s@.take(m as int) =~= p@);
    }
    true
}

/// The attribute text a fresh reference splices in, without brackets.
pub open spec fn spec_url_text(id: Seq<char>) -> Seq<char> {
    "URL=\"https://open.spotify.com/playlist/"@ + id + "\""@
}

/// Where a statement takes the new attribute and what exactly is inserted:
/// into an existing attribute list right after its `[`, followed by a comma
/// when the list is closed and by a closing bracket when it is not; or, when
/// the statement has no list, a whole fresh list at its end.
pub open spec fn spec_insertion(part: Seq<char>, id: Seq<char>) -> (int, Seq<char>) {
    match first_index_of(part, '[') {
        Some(i) => (
            i + 1,
            spec_url_text(id) + (if first_index_of(part, ']') is Some {
                ", "@
            } else {
                "]"@
            }),
        ),
        None => (part.len() as int, " ["@ + spec_url_text(id) + "]"@),
    }
}

/// `part` with `text` inserted at `pos`, clamped to the length.
pub open spec fn spec_insert_at(part: Seq<char>, pos: int, text: Seq<char>) -> Seq<char> {
    let p = if pos < 0 {
        0
    } else if pos > part.len() {
        part.len() as int
    } else {
        pos
    };
    part.take(p) + text + part.skip(p)
}

/// Whether the statement declares `node`: no edge marker, and after trimming
/// it starts with the name, bare or quoted.
pub open spec fn spec_part_matches(part: Seq<char>, node: Seq<char>) -> bool {
    !spec_has_arrow(part) && (spec_starts_with(spec_trimmed(part), node) || spec_starts_with(
        spec_trimmed(part),
        seq!['"'] + node + seq!['"'],
    ))
}

/// The first statement declaring `node`.
pub open spec fn spec_find_part(parts: Seq<Seq<char>>, node: Seq<char>) -> Option<int>
    decreases parts.len(),
{
    if parts.len() == 0 {
        None
    } else if spec_part_matches(parts[0], node) {
        Some(0int)
    } else {
        match spec_find_part(parts.skip(1), node) {
            Some(i) => Some(i + 1),
            None => None,
        }
    }
}

pub proof fn lemma_find_part_props(parts: Seq<Seq<char>>, node: Seq<char>)
    ensures
        spec_find_part(parts, node) matches Some(i) ==> 0 <= i < parts.len()
            && spec_part_matches(parts[i], node),
    decreases parts.len(),
{
    if parts.len() > 0 {
        lemma_find_part_props(parts.skip(1), node);
        assert(forall|j: int| 1 <= j < parts.len() ==> parts[j] == parts.skip(1)[j - 1]);
    }
}

proof fn lemma_find_part_least(parts: Seq<Seq<char>>, node: Seq<char>, i: int)
    requires
        0 <= i < parts.len(),
        spec_part_matches(parts[i], node),
        forall|j: int| 0 <= j < i ==> !spec_part_matches(#[trigger] parts[j], node),
    ensures
        spec_find_part(parts, node) == Some(i),
    decreases i,
{
    if i > 0 {
        assert(forall|j: int| 0 <= j < i - 1 ==> parts.skip(1)[j] == parts[j + 1]);
        assert(parts.skip(1)[i - 1] == parts[i]);
        lemma_find_part_least(parts.skip(1), node, i - 1);
    }
}

/// The statements after the first `k` newly created references are spliced
/// in: each reference whose node is among the missing ones finds its node's
/// declaration — located in the original statements — and the insertion,
/// also computed from the original statement, lands in the accumulated one.
pub open spec fn spec_apply_refs(
    orig: Seq<Seq<char>>,
    res: Seq<Seq<char>>,
    refs: Seq<(String, String)>,
    missing: Seq<String>,
    k: int,
) -> Seq<Seq<char>>
    decreases k,
{
    if k <= 0 {
        res
    } else {
        let prev = spec_apply_refs(orig, res, refs, missing, k - 1);
        let node = refs[k - 1].0;
        let id = refs[k - 1].1;
        if !has_id(missing, node@) {
            prev
        } else {
            match spec_find_part(orig, node@) {
                None => prev,
                Some(idx) => {
                    let ins = spec_insertion(orig[idx], id@);
                    prev.update(idx, spec_insert_at(prev[idx], ins.0, ins.1))
                },
            }
        }
    }
}

/// The produced description: prefix and suffix kept as they were, the body
/// re-joined from the statements with every newly created reference spliced
/// in.
pub open spec fn spec_post_apply(
    content: Seq<char>,
    refs: Seq<(String, String)>,
    missing: Seq<String>,
) -> Seq<char> {
    let pfx = match first_index_of(content, '{') {
        None => content,
        Some(i) => content.take(i),
    };
    let after = match first_index_of(content, '{') {
        None => Seq::<char>::empty(),
        Some(i) => content.skip(i + 1),
    };
    let inner = match first_index_of(after, '}') {
        None => after,
        Some(j) => after.take(j),
    };
    let sfx = match first_index_of(content, '}') {
        None => Seq::<char>::empty(),
        Some(j) => content.skip(j + 1),
    };
    let parts = spec_split(inner, ';');
    let res = spec_apply_refs(parts, parts, refs, missing, refs.len() as int);
    pfx + seq!['{'] + spec_join_chars(res, ';') + seq!['}'] + sfx
}

/// Builds the spliced attribute text for one reference id.
fn url_text(id: &String) -> (r: Vec<char>)
    ensures
        r@ == spec_url_text(id@),
{
    let mut out = crate::text::str_to_chars("URL=\"https://open.spotify.com/playlist/");
    let id_chars = crate::text::str_to_chars(id.as_str());
    extend_chars(&mut out, &id_chars);
    out.push('"');
    proof {
        assert(out@ =~= spec_url_text(id@)) by {
            reveal_strlit("\"");
        }
    }
    out
}

/// Whether the statement declares `node`.
fn part_matches(part: &Vec<char>, node: &String) -> (r: bool)
    ensures
        r == spec_part_matches(part@, node@),
{
    if has_arrow(part) {
        return false;
    }
    let trimmed = trimmed_chars(part);
    let node_chars = crate::text::str_to_chars(node.as_str());
    if starts_with_chars(&trimmed, &node_chars) {
        return true;
    }
    let mut quoted: Vec<char> = Vec::new();
    quoted.push('"');
    extend_chars(&mut quoted, &node_chars);
    quoted.push('"');
    proof {
        assert(quoted@ =~= seq!['"'] + node@ + seq!['"']);
    }
    starts_with_chars(&trimmed, &quoted)
}

/// Finds the first statement declaring `node`.
fn find_part(parts: &Vec<Vec<char>>, node: &String) -> (r: Option<usize>)
    ensures
        r matches Some(u) ==> spec_find_part(views_of_chars(parts@), node@) == Some(u as int),
        r is None ==> spec_find_part(views_of_chars(parts@), node@) is None,
{
    let n = parts.len();
    let mut i: usize = 0;
    while i < n
        invariant
            i <= n,
            n == parts@.len(),
            forall|j: int|
                0 <= j < i ==> !spec_part_matches(
                    #[trigger] views_of_chars(parts@)[j],
                    node@,
                ),
        decreases n - i,
    {
        if part_matches(&parts[i], node) {
            proof {
                assert(views_of_chars(parts@)[i as int] == parts@[i as int]@);
                lemma_find_part_least(views_of_chars(parts@), node@, i as int);
            }
            return Some(i);
        }
        proof {
            assert(views_of_chars(parts@)[i as int] == parts@[i as int]@);
        }
        i = i + 1;
    }
    proof {
        lemma_find_part_props(views_of_chars(parts@), node@);
    }
    None
}

/// `part` with `text` inserted at `pos`.
fn insert_at(part: &Vec<char>, pos: usize, text: &Vec<char>) -> (r: Vec<char>)
    requires
        pos <= part@.len(),
    ensures
        r@ == spec_insert_at(part@, pos as int, text@),
{
    let mut out = subrange_chars(part, 0, pos);
    extend_chars(&mut out, text);
    let rest = subrange_chars(part, pos, part.len());
    extend_chars(&mut out, &rest);
    proof {
        assert(part@.subrange(0, pos as int) =~= part@.take(pos as int));
        assert(part@.subrange(pos as int, part@.len() as int) =~= part@.skip(pos as int));
        assert(out@ =~= spec_insert_at(part@, pos as int, text@));
    }
    out
}

/// Splices the created playlists' references into the graph description:
/// the body between the first brace pair is split into statements, each
/// missing node's declaration gains a `URL` attribute, and everything else
/// is preserved, byte for byte.
pub fn create_post_apply_file(
    content: &str,
    node_to_playlist_id: &Vec<(String, String)>,
    nodes_with_missing_playlists: &Vec<String>,
) -> (r: Result<String, Error>)
    ensures
        r matches Ok(s) && s@ == spec_post_apply(
            content@,
            node_to_playlist_id@,
            nodes_with_missing_playlists@,
        ),
{
    let chars = crate::text::str_to_chars(content);
    let pfx: Vec<char>;
    let after: Vec<char>;
    match index_of_char(&chars, '{') {
        None => {
            pfx = clone_chars(&chars);
            after = Vec::new();
            proof {
                assert(after@ =~= Seq::<char>::empty());
            }
        },
        Some(i) => {
            proof {
                lemma_first_index_props(chars@, '{');
            }
            pfx = subrange_chars(&chars, 0, i);
            after = subrange_chars(&chars, i + 1, chars.len());
            proof {
                assert(pfx@ =~= chars@.take(i as int));
                assert(after@ =~= chars@.skip(i as int + 1));
            }
        },
    }
    let inner: Vec<char> = match index_of_char(&after, '}') {
        None => clone_chars(&after),
        Some(j) => {
            proof {
                lemma_first_index_props(after@, '}');
            }
            let t = subrange_chars(&after, 0, j);
            proof {
                assert(t@ =~= after@.take(j as int));
            }
            t
        },
    };
    let sfx: Vec<char> = match index_of_char(&chars, '}') {
        None => Vec::new(),
        Some(j) => {
            proof {
                lemma_first_index_props(chars@, '}');
            }
            let t = subrange_chars(&chars, j + 1, chars.len());
            proof {
                assert(t@ =~= chars@.skip(j as int + 1));
            }
            t
        },
    };
    let parts = split_chars(&inner, ';');
    let mut res: Vec<Vec<char>> = Vec::new();
    let pn = parts.len();
    let mut pi: usize = 0;
    while pi < pn
        invariant
            pi <= pn,
            pn == parts@.len(),
            res@.len() == pi,
            forall|j: int| 0 <= j < pi ==> (#[trigger] res@[j])@ == parts@[j]@,
        decreases pn - pi,
    {
        res.push(clone_chars(&parts[pi]));
        pi = pi + 1;
    }
    proof {
        assert(views_of_chars(res@) =~= views_of_chars(parts@));
    }
    let rn = node_to_playlist_id.len();
    let mut k: usize = 0;
    while k < rn
        invariant
            k <= rn,
            rn == node_to_playlist_id@.len(),
            res@.len() == parts@.len(),
            views_of_chars(res@) == spec_apply_refs(
                views_of_chars(parts@),
                views_of_chars(parts@),
                node_to_playlist_id@,
                nodes_with_missing_playlists@,
                k as int,
            ),
            forall|j: int|
                0 <= j < res@.len() ==> (#[trigger] res@[j])@.len() >= parts@[j]@.len(),
        decreases rn - k,
    {
        let node = &node_to_playlist_id[k].0;
        let id = &node_to_playlist_id[k].1;
        if crate::tracks::contains_id(nodes_with_missing_playlists, node) {
            match find_part(&parts, node) {
                None => {},
                Some(idx) => {
                    proof {
                        lemma_find_part_props(views_of_chars(parts@), node@);
                        assert(views_of_chars(parts@)[idx as int] == parts@[idx as int]@);
                    }
                    let text: Vec<char>;
                    let pos: usize;
                    match index_of_char(&parts[idx], '[') {
                        Some(b) => {
                            proof {
                                lemma_first_index_props(parts@[idx as int]@, '[');
                            }
                            pos = b + 1;
                            let mut t = url_text(id);
                            match index_of_char(&parts[idx], ']') {
                                Some(_) => {
                                    t.push(',');
                                    t.push(' ');
                                    proof {
                                        assert(t@ =~= spec_url_text(id@) + ", "@) by {
                                            reveal_strlit(", ");
                                        }
                                    }
                                },
                                None => {
                                    t.push(']');
                                    proof {
                                        assert(t@ =~= spec_url_text(id@) + "]"@) by {
                                            reveal_strlit("]");
                                        }
                                    }
                                },
                            }
                            text = t;
                        },
                        None => {
                            pos = parts[idx].len();
                            let mut t: Vec<char> = Vec::new();
                            t.push(' ');
                            t.push('[');
                            let u = url_text(id);
                            extend_chars(&mut t, &u);
                            t.push(']');
                            proof {
                                assert(t@ =~= " ["@ + spec_url_text(id@) + "]"@) by {
                                    reveal_strlit(" [");
                                    reveal_strlit("]");
                                }
                            }
                            text = t;
                        },
                    }
                    let updated = insert_at(&res[idx], pos, &text);
                    res.set(idx, updated);
                    proof {
                        assert(views_of_chars(res@) =~= spec_apply_refs(
                            views_of_chars(parts@),
                            views_of_chars(parts@),
                            node_to_playlist_id@,
                            nodes_with_missing_playlists@,
                            k as int + 1,
                        ));
                    }
                },
            }
        }
        k = k + 1;
    }
    let body = join_chars(&res, ';');
    let mut out = clone_chars(&pfx);
    out.push('{');
    extend_chars(&mut out, &body);
    out.push('}');
    extend_chars(&mut out, &sfx);
    proof {
        assert(out@ =~= spec_post_apply(
            content@,
            node_to_playlist_id@,
            nodes_with_missing_playlists@,
        ));
    }
    Ok(crate::text::chars_to_string(&out))
}


} // verus!
