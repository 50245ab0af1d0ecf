//! Configuration of an invocation. A key/value file (one `KEY=VALUE` entry
//! per line, `#` starting a comment line) can supply any input that was not
//! given as a flag or found in the process environment; the precedence is
//! flag, then environment, then file, resolved once before the pipeline
//! runs. This module parses the file format and performs that resolution,
//! all on plain byte strings handed in by the unverified boundary.

use vstd::prelude::*;

use crate::bytes_range;

verus! {

/// The line-feed byte that separates lines.
pub const LINE_FEED: u8 = 10;

/// The byte `#` that opens a comment line.
pub const COMMENT_MARK: u8 = 35;

/// The byte `=` that separates a key from its value.
pub const KEY_VALUE_MARK: u8 = 61;

/// The byte string that a sequence of lines describes: the lines joined by
/// a single line feed between neighbours.
pub open spec fn join_lines(ls: Seq<Seq<u8>>) -> Seq<u8>
    decreases ls.len(),
{
    if ls.len() == 0 {
        Seq::empty()
    } else if ls.len() == 1 {
        ls[0]
    } else {
        join_lines(ls.drop_last()) + seq![LINE_FEED] + ls.last()
    }
}

/// True when no line of the sequence contains a line feed, so that the
/// sequence is a genuine line decomposition of whatever it joins to.
pub open spec fn lines_are_clean(ls: Seq<Seq<u8>>) -> bool {
    forall|i: int, j: int|
        0 <= i < ls.len() && 0 <= j < ls[i].len() ==> #[trigger] ls[i][j] != LINE_FEED
}

/// The views of a vector of byte strings.
pub open spec fn line_views(ls: Seq<Vec<u8>>) -> Seq<Seq<u8>> {
    ls.map_values(|l: Vec<u8>| l@)
}

/// Splits a file's bytes into its lines at every line feed. The result is
/// the unique decomposition: no returned line contains a line feed, and
/// joining the lines with line feeds restores the input exactly.
pub fn split_lines(data: &Vec<u8>) -> (r: Vec<Vec<u8>>)
    ensures
        r@.len() >= 1,
        lines_are_clean(line_views(r@)),
        join_lines(line_views(r@)) == data@,
{
    let n: usize = data.len();
    let mut done: Vec<Vec<u8>> = Vec::new();
    let mut cur: Vec<u8> = Vec::new();
    let mut i: usize = 0;
    while i < n
        invariant
            n == data@.len(),
            i <= n,
            lines_are_clean(line_views(done@)),
            forall|j: int| 0 <= j < cur@.len() ==> cur@[j] != LINE_FEED,
            join_lines(line_views(done@).push(cur@)) == data@.subrange(0, i as int),
        decreases n - i,
    {
        let b = data[i];
        if b == LINE_FEED {
            proof {
                let ls = line_views(done@).push(cur@);
                let ls2 = line_views(done@.push(cur)).push(Seq::<u8>::empty());
                assert(ls2.drop_last() =~= ls);
                assert(ls2.last() =~= Seq::<u8>::empty());
                assert(join_lines(ls2) == join_lines(ls) + seq![LINE_FEED]);
                assert(join_lines(ls2) =~= data@.subrange(0, i + 1));
                let nv = line_views(done@.push(cur));
                assert(nv =~= line_views(done@).push(cur@));
                assert forall|p: int, q: int|
                    0 <= p < nv.len() && 0 <= q < nv[p].len() implies #[trigger] nv[p][q]
                    != LINE_FEED by {
                    if p < done@.len() {
                        assert(nv[p] == line_views(done@)[p]);
                    } else {
                        assert(nv[p] == cur@);
                    }
                }
            }
            done.push(cur);
            cur = Vec::new();
        } else {
            proof {
                let ls = line_views(done@).push(cur@);
                let ls2 = line_views(done@).push(cur@.push(b));
                if ls.len() == 1 {
                    assert(join_lines(ls2) == cur@.push(b));
                    assert(join_lines(ls) == cur@);
                } else {
                    assert(ls2.drop_last() =~= ls.drop_last());
                    assert(join_lines(ls2) == join_lines(ls.drop_last()) + seq![LINE_FEED]
                        + cur@.push(b));
                    assert(join_lines(ls) == join_lines(ls.drop_last()) + seq![LINE_FEED] + cur@);
                }
                assert(join_lines(ls2) =~= join_lines(ls).push(b));
                assert(join_lines(ls).push(b) =~= data@.subrange(0, i + 1));
            }
            cur.push(b);
        }
        i += 1;
    }
    proof {
        assert(data@.subrange(0, n as int) =~= data@);
        let ls = line_views(done@).push(cur@);
        assert(line_views(done@.push(cur)) =~= ls);
    }
    done.push(cur);
    done
}

/// A sequence of at least two clean lines joins to a byte string with a
/// line feed in it, right after the joined prefix.
proof fn lemma_join_has_line_feed(ls: Seq<Seq<u8>>)
    requires
        ls.len() >= 2,
    ensures
        join_lines(ls)[join_lines(ls.drop_last()).len() as int] == LINE_FEED,
        join_lines(ls.drop_last()).len() < join_lines(ls).len(),
{
    assert(join_lines(ls) == join_lines(ls.drop_last()) + seq![LINE_FEED] + ls.last());
}

/// A byte string has at most one decomposition into clean lines: the split
/// at every line feed. The parse of a file is therefore a function of its
/// bytes alone.
pub proof fn lemma_line_split_unique(ls1: Seq<Seq<u8>>, ls2: Seq<Seq<u8>>)
    requires
        ls1.len() >= 1,
        ls2.len() >= 1,
        lines_are_clean(ls1),
        lines_are_clean(ls2),
        join_lines(ls1) == join_lines(ls2),
    ensures
        ls1 =~~= ls2,
    decreases ls1.len(),
{
    let j = join_lines(ls1);
    if ls1.len() == 1 && ls2.len() == 1 {
        assert(ls1[0] == j && ls2[0] == j);
    } else if ls1.len() == 1 {
        lemma_join_has_line_feed(ls2);
        assert(ls1[0][join_lines(ls2.drop_last()).len() as int] == LINE_FEED);
        assert(false);
    } else if ls2.len() == 1 {
        lemma_join_has_line_feed(ls1);
        assert(ls2[0][join_lines(ls1.drop_last()).len() as int] == LINE_FEED);
        assert(false);
    } else {
        let p1 = join_lines(ls1.drop_last());
        let p2 = join_lines(ls2.drop_last());
        let a = ls1.last();
        let b = ls2.last();
        assert(j == p1 + seq![LINE_FEED] + a);
        assert(j == p2 + seq![LINE_FEED] + b);
        assert(a.len() == b.len()) by {
            if a.len() < b.len() {
                // the line feed that closes `p1` falls inside `b`
                assert(j[p1.len() as int] == LINE_FEED);
                assert(j[p1.len() as int] == b[p1.len() - p2.len() - 1]);
                assert(false);
            }
            if b.len() < a.len() {
                assert(j[p2.len() as int] == LINE_FEED);
                assert(j[p2.len() as int] == a[p2.len() - p1.len() - 1]);
                assert(false);
            }
        }
        assert(a =~= b) by {
            assert forall|i: int| 0 <= i < a.len() implies a[i] == b[i] by {
                assert(a[i] == j[p1.len() + 1 + i]);
                assert(b[i] == j[p2.len() + 1 + i]);
            }
        }
        assert(p1 =~= p2) by {
            assert forall|i: int| 0 <= i < p1.len() implies p1[i] == p2[i] by {
                assert(p1[i] == j[i]);
                assert(p2[i] == j[i]);
            }
        }
        assert(lines_are_clean(ls1.drop_last()));
        assert(lines_are_clean(ls2.drop_last()));
        lemma_line_split_unique(ls1.drop_last(), ls2.drop_last());
        assert(ls1 =~~= ls1.drop_last().push(a));
        assert(ls2 =~~= ls2.drop_last().push(b));
    }
}

/// True when the line is exactly `k`, the key/value mark, then `v`, with no
/// key/value mark inside `k`: the decomposition at the first mark.
pub open spec fn is_kv_split(l: Seq<u8>, k: Seq<u8>, v: Seq<u8>) -> bool {
    &&& l == k + seq![KEY_VALUE_MARK] + v
    &&& forall|i: int| 0 <= i < k.len() ==> k[i] != KEY_VALUE_MARK
}

/// True of a line with no bytes at all.
pub open spec fn line_is_blank(l: Seq<u8>) -> bool {
    l.len() == 0
}

/// True of a line whose first byte opens a comment.
pub open spec fn line_is_comment(l: Seq<u8>) -> bool {
    l.len() > 0 && l[0] == COMMENT_MARK
}

/// True of a line that carries a key/value entry.
pub open spec fn line_has_kv(l: Seq<u8>) -> bool {
    exists|k: Seq<u8>, v: Seq<u8>| is_kv_split(l, k, v)
}

/// The key of a line that carries an entry.
pub open spec fn line_key(l: Seq<u8>) -> Seq<u8> {
    (choose|k: Seq<u8>, v: Seq<u8>| is_kv_split(l, k, v)).0
}

/// The value of a line that carries an entry.
pub open spec fn line_value(l: Seq<u8>) -> Seq<u8> {
    (choose|k: Seq<u8>, v: Seq<u8>| is_kv_split(l, k, v)).1
}

/// True of a line that is neither blank, nor a comment, nor an entry: such
/// a line makes the whole file invalid.
pub open spec fn line_is_malformed(l: Seq<u8>) -> bool {
    !line_is_blank(l) && !line_is_comment(l) && !line_has_kv(l)
}

/// A line has at most one decomposition at the key/value mark: the key runs
/// up to the first mark, so two decompositions must agree.
pub proof fn lemma_kv_split_unique(l: Seq<u8>, k1: Seq<u8>, v1: Seq<u8>, k2: Seq<u8>, v2: Seq<u8>)
    requires
        is_kv_split(l, k1, v1),
        is_kv_split(l, k2, v2),
    ensures
        k1 == k2,
        v1 == v2,
{
    if k1.len() < k2.len() {
        assert(l[k1.len() as int] == KEY_VALUE_MARK);
        assert(l[k1.len() as int] == k2[k1.len() as int]);
        assert(false);
    }
    if k2.len() < k1.len() {
        assert(l[k2.len() as int] == KEY_VALUE_MARK);
        assert(l[k2.len() as int] == k1[k2.len() as int]);
        assert(false);
    }
    assert(k1 =~= k2) by {
        assert forall|i: int| 0 <= i < k1.len() implies k1[i] == k2[i] by {
            assert(l[i] == k1[i]);
            assert(l[i] == k2[i]);
        }
    }
    assert(l.len() == k1.len() + 1 + v1.len());
    assert(l.len() == k2.len() + 1 + v2.len());
    assert(v1.len() == v2.len());
    assert(v1 =~= v2) by {
        assert forall|i: int| 0 <= i < v1.len() implies v1[i] == v2[i] by {
            assert((k1 + seq![KEY_VALUE_MARK] + v1)[k1.len() + 1 + i] == v1[i]);
            assert((k2 + seq![KEY_VALUE_MARK] + v2)[k2.len() + 1 + i] == v2[i]);
        }
    }
}

/// What one line of the file contributes.
pub enum LineKind {
    /// An empty line; skipped.
    Blank,
    /// A comment line; skipped.
    Comment,
    /// A `KEY=VALUE` entry: the key runs up to the first key/value mark.
    Entry { key: Vec<u8>, value: Vec<u8> },
    /// Anything else; the file is rejected.
    Malformed,
}

/// Classifies one line (which must come from `split_lines`, so it contains
/// no line feed): blank and comment lines are skipped, a line with a
/// key/value mark is an entry split at the first such mark, and any other
/// line is malformed.
pub fn classify_line(line: &Vec<u8>) -> (r: LineKind)
    ensures
        line_is_blank(line@) ==> r is Blank,
        line_is_comment(line@) ==> r is Comment,
        !line_is_blank(line@) && !line_is_comment(line@) && line_has_kv(line@) ==> {
            &&& r is Entry
            &&& r->Entry_key@ == line_key(line@)
            &&& r->Entry_value@ == line_value(line@)
        },
        line_is_malformed(line@) ==> r is Malformed,
{
    let n: usize = line.len();
    if n == 0 {
        return LineKind::Blank;
    }
    if line[0] == COMMENT_MARK {
        return LineKind::Comment;
    }
    let mut i: usize = 0;
    while i < n
        invariant
            n == line@.len(),
            i <= n,
            !line_is_blank(line@),
            !line_is_comment(line@),
            forall|j: int| 0 <= j < i ==> line@[j] != KEY_VALUE_MARK,
        decreases n - i,
    {
        if line[i] == KEY_VALUE_MARK {
            let key = bytes_range(line, 0, i);
            let value = bytes_range(line, i + 1, n);
            proof {
                assert(line@ =~= key@ + seq![KEY_VALUE_MARK] + value@);
                assert(is_kv_split(line@, key@, value@));
                let (ck, cv) = choose|k: Seq<u8>, v: Seq<u8>| is_kv_split(line@, k, v);
                lemma_kv_split_unique(line@, key@, value@, ck, cv);
            }
            return LineKind::Entry { key, value };
        }
        i += 1;
    }
    proof {
        assert(!line_has_kv(line@)) by {
            if line_has_kv(line@) {
                let (ck, cv) = choose|k: Seq<u8>, v: Seq<u8>| is_kv_split(line@, k, v);
                assert(line@[ck.len() as int] == KEY_VALUE_MARK);
            }
        }
    }
    LineKind::Malformed
}

/// One `KEY=VALUE` entry read from the file.
pub struct EnvEntry {
    pub key: Vec<u8>,
    pub value: Vec<u8>,
}

impl View for EnvEntry {
    type V = (Seq<u8>, Seq<u8>);

    open spec fn view(&self) -> (Seq<u8>, Seq<u8>) {
        (self.key@, self.value@)
    }
}

/// The views of a vector of entries.
pub open spec fn entry_views(es: Seq<EnvEntry>) -> Seq<(Seq<u8>, Seq<u8>)> {
    es.map_values(|e: EnvEntry| e@)
}

/// The entries that a sequence of lines carries, in file order: one pair
/// per entry line, blank and comment lines contributing nothing.
pub open spec fn entries_of(ls: Seq<Seq<u8>>) -> Seq<(Seq<u8>, Seq<u8>)>
    decreases ls.len(),
{
    if ls.len() == 0 {
        Seq::empty()
    } else {
        let init = entries_of(ls.drop_last());
        let l = ls.last();
        if !line_is_blank(l) && !line_is_comment(l) && line_has_kv(l) {
            init.push((line_key(l), line_value(l)))
        } else {
            init
        }
    }
}

/// True when no line of the sequence is malformed.
pub open spec fn all_lines_sound(ls: Seq<Seq<u8>>) -> bool {
    forall|i: int| 0 <= i < ls.len() ==> !line_is_malformed(#[trigger] ls[i])
}

/// Reads the entries out of a file's lines. Returns the entries in file
/// order when every line is sound, and otherwise the index of the first
/// malformed line.
pub fn parse_entries(lines: &Vec<Vec<u8>>) -> (r: Result<Vec<EnvEntry>, usize>)
    ensures
        match r {
            Ok(es) => {
                &&& all_lines_sound(line_views(lines@))
                &&& entry_views(es@) == entries_of(line_views(lines@))
            },
            Err(i) => {
                &&& 0 <= i < lines@.len()
                &&& line_is_malformed(line_views(lines@)[i as int])
                &&& forall|j: int|
                    0 <= j < i ==> !line_is_malformed(#[trigger] line_views(lines@)[j])
            },
        },
{
    let ghost ls = line_views(lines@);
    let n: usize = lines.len();
    let mut es: Vec<EnvEntry> = Vec::new();
    let mut i: usize = 0;
    while i < n
        invariant
            n == lines@.len(),
            i <= n,
            ls == line_views(lines@),
            entry_views(es@) == entries_of(ls.subrange(0, i as int)),
            forall|j: int| 0 <= j < i ==> !line_is_malformed(#[trigger] ls[j]),
        decreases n - i,
    {
        let kind = classify_line(&lines[i]);
        proof {
            assert(ls.subrange(0, i + 1).drop_last() =~= ls.subrange(0, i as int));
            assert(ls.subrange(0, i + 1).last() == ls[i as int]);
        }
        match kind {
            LineKind::Blank => {
                proof {
                    assert(entries_of(ls.subrange(0, i + 1)) == entries_of(
                        ls.subrange(0, i as int),
                    ));
                }
            },
            LineKind::Comment => {
                proof {
                    assert(entries_of(ls.subrange(0, i + 1)) == entries_of(
                        ls.subrange(0, i as int),
                    ));
                }
            },
            LineKind::Entry { key, value } => {
                let entry = EnvEntry { key, value };
                proof {
                    assert(entries_of(ls.subrange(0, i + 1)) == entries_of(
                        ls.subrange(0, i as int),
                    ).push((line_key(ls[i as int]), line_value(ls[i as int]))));
                    assert(entry_views(es@.push(entry)) =~= entry_views(es@).push(entry@));
                }
                es.push(entry);
            },
            LineKind::Malformed => {
                return Err(i);
            },
        }
        i += 1;
    }
    proof {
        assert(ls.subrange(0, n as int) =~= ls);
    }
    Ok(es)
}

/// Parses a whole file: splits it into lines and reads the entries. For
/// every clean line decomposition of the input (there is exactly one, by
/// `lemma_line_split_unique`) the result is what that decomposition
/// carries: its entries in file order, or the index of its first
/// malformed line.
pub fn parse_env_file(data: &Vec<u8>) -> (r: Result<Vec<EnvEntry>, usize>)
    ensures
        forall|ls: Seq<Seq<u8>>|
            #[trigger] join_lines(ls) == data@ && ls.len() >= 1 && lines_are_clean(ls)
                ==> match r {
                Ok(es) => all_lines_sound(ls) && entry_views(es@) == entries_of(ls),
                Err(i) => 0 <= i < ls.len() && line_is_malformed(ls[i as int]) && forall|j: int|
                    0 <= j < i ==> !line_is_malformed(#[trigger] ls[j]),
            },
{
    let lines = split_lines(data);
    let r = parse_entries(&lines);
    proof {
        let actual = line_views(lines@);
        assert forall|ls: Seq<Seq<u8>>|
            #[trigger] join_lines(ls) == data@ && ls.len() >= 1 && lines_are_clean(
                ls,
            ) implies match r {
            Ok(es) => all_lines_sound(ls) && entry_views(es@) == entries_of(ls),
            Err(i) => 0 <= i < ls.len() && line_is_malformed(ls[i as int]) && forall|j: int|
                0 <= j < i ==> !line_is_malformed(#[trigger] ls[j]),
        } by {
            lemma_line_split_unique(ls, actual);
            assert(ls =~~= actual);
        }
    }
    r
}

/// The value of the first entry with the given key, if any: entries set
/// earlier in the file win, as they do when a file is loaded into an
/// environment that refuses to overwrite.
pub open spec fn lookup_spec(es: Seq<(Seq<u8>, Seq<u8>)>, key: Seq<u8>) -> Option<Seq<u8>>
    decreases es.len(),
{
    if es.len() == 0 {
        Option::None
    } else if es[0].0 == key {
        Option::Some(es[0].1)
    } else {
        lookup_spec(es.drop_first(), key)
    }
}

/// Skipping entries whose keys all differ from the one sought leaves the
/// lookup's result unchanged.
proof fn lemma_lookup_skip(es: Seq<(Seq<u8>, Seq<u8>)>, key: Seq<u8>, i: int)
    requires
        0 <= i <= es.len(),
        forall|j: int| 0 <= j < i ==> (#[trigger] es[j]).0 != key,
    ensures
        lookup_spec(es, key) == lookup_spec(es.skip(i), key),
    decreases i,
{
    if i > 0 {
        assert(es[0].0 != key);
        lemma_lookup_skip(es.drop_first(), key, i - 1);
        assert(es.drop_first().skip(i - 1) =~= es.skip(i));
    } else {
        assert(es.skip(0) =~= es);
    }
}

/// The value of the first entry whose key equals `key`, or nothing when no
/// entry has that key.
pub fn first_value(entries: &Vec<EnvEntry>, key: &Vec<u8>) -> (r: Option<Vec<u8>>)
    ensures
        match r {
            Option::Some(v) => lookup_spec(entry_views(entries@), key@) == Option::Some(v@),
            Option::None => lookup_spec(entry_views(entries@), key@) is None,
        },
{
    let ghost es = entry_views(entries@);
    let n: usize = entries.len();
    let mut i: usize = 0;
    while i < n
        invariant
            n == entries@.len(),
            i <= n,
            es == entry_views(entries@),
            forall|j: int| 0 <= j < i ==> (#[trigger] es[j]).0 != key@,
        decreases n - i,
    {
        if crate::bytes_eq(&entries[i].key, key) {
            let v = crate::clone_bytes(&entries[i].value);
            proof {
                lemma_lookup_skip(es, key@, i as int);
                assert(es.skip(i as int)[0] == es[i as int]);
            }
            return Option::Some(v);
        }
        i += 1;
    }
    proof {
        lemma_lookup_skip(es, key@, n as int);
        assert(es.skip(n as int) =~= Seq::<(Seq<u8>, Seq<u8>)>::empty());
    }
    Option::None
}

/// The view of an optional byte string.
pub open spec fn opt_view(o: Option<Vec<u8>>) -> Option<Seq<u8>> {
    match o {
        Option::Some(v) => Option::Some(v@),
        Option::None => Option::None,
    }
}

/// The precedence rule for one input: the flag wins, then the process
/// environment, then the configuration file.
pub open spec fn pick_first(
    flag: Option<Seq<u8>>,
    env: Option<Seq<u8>>,
    file: Option<Seq<u8>>,
) -> Option<Seq<u8>> {
    if flag is Some {
        flag
    } else if env is Some {
        env
    } else {
        file
    }
}

/// Applies the precedence rule to owned values.
pub fn pick_first_owned(flag: Option<Vec<u8>>, env: Option<Vec<u8>>, file: Option<Vec<u8>>) -> (r:
    Option<Vec<u8>>)
    ensures
        opt_view(r) == pick_first(opt_view(flag), opt_view(env), opt_view(file)),
{
    match flag {
        Option::Some(v) => Option::Some(v),
        Option::None => match env {
            Option::Some(v) => Option::Some(v),
            Option::None => file,
        },
    }
}

/// The key `LOCAL_PATH`, under which the file supplies the repository path.
pub open spec fn local_path_key() -> Seq<u8> {
    seq![76u8, 79u8, 67u8, 65u8, 76u8, 95u8, 80u8, 65u8, 84u8, 72u8]
}

/// The key `REMOTE`, under which the file supplies the remote name.
pub open spec fn remote_key() -> Seq<u8> {
    seq![82u8, 69u8, 77u8, 79u8, 84u8, 69u8]
}

/// The key `BRANCH`, under which the file supplies the branch name.
pub open spec fn branch_key() -> Seq<u8> {
    seq![66u8, 82u8, 65u8, 78u8, 67u8, 72u8]
}

/// The key `SSH_KEY_PATH`, under which the file supplies the key path.
pub open spec fn ssh_key_path_key() -> Seq<u8> {
    seq![83u8, 83u8, 72u8, 95u8, 75u8, 69u8, 89u8, 95u8, 80u8, 65u8, 84u8, 72u8]
}

/// The key `LOCAL_PATH` as an owned byte string.
pub fn local_path_key_bytes() -> (r: Vec<u8>)
    ensures
        r@ == local_path_key(),
{
    let a: [u8; 10] = [76u8, 79u8, 67u8, 65u8, 76u8, 95u8, 80u8, 65u8, 84u8, 72u8];
    let r = crate::slice_to_bytes(a.as_slice());
    proof {
        assert(r@ =~= local_path_key());
    }
    r
}

/// The key `REMOTE` as an owned byte string.
pub fn remote_key_bytes() -> (r: Vec<u8>)
    ensures
        r@ == remote_key(),
{
    let a: [u8; 6] = [82u8, 69u8, 77u8, 79u8, 84u8, 69u8];
    let r = crate::slice_to_bytes(a.as_slice());
    proof {
        assert(r@ =~= remote_key());
    }
    r
}

/// The key `BRANCH` as an owned byte string.
pub fn branch_key_bytes() -> (r: Vec<u8>)
    ensures
        r@ == branch_key(),
{
    let a: [u8; 6] = [66u8, 82u8, 65u8, 78u8, 67u8, 72u8];
    let r = crate::slice_to_bytes(a.as_slice());
    proof {
        assert(r@ =~= branch_key());
    }
    r
}

/// The key `SSH_KEY_PATH` as an owned byte string.
pub fn ssh_key_path_key_bytes() -> (r: Vec<u8>)
    ensures
        r@ == ssh_key_path_key(),
{
    let a: [u8; 12] = [83u8, 83u8, 72u8, 95u8, 75u8, 69u8, 89u8, 95u8, 80u8, 65u8, 84u8, 72u8];
    let r = crate::slice_to_bytes(a.as_slice());
    proof {
        assert(r@ =~= ssh_key_path_key());
    }
    r
}

/// The four inputs as one source may supply them: each one optional.
pub struct RawConfig {
    pub local_path: Option<Vec<u8>>,
    pub remote: Option<Vec<u8>>,
    pub branch: Option<Vec<u8>>,
    pub ssh_key_path: Option<Vec<u8>>,
}

/// A resolved configuration: everything one invocation needs. The local
/// path, remote name and branch name are required; the credential is
/// optional, and without it the fetch runs unauthenticated.
pub struct Config {
    pub local_path: Vec<u8>,
    pub remote: Vec<u8>,
    pub branch: Vec<u8>,
    pub ssh_key_path: Option<Vec<u8>>,
}

/// The required input that resolution could not supply from any source.
#[derive(Clone, Copy, Debug, PartialEq, Eq, Structural)]
pub enum MissingInput {
    LocalPath,
    Remote,
    Branch,
}

/// What one input resolves to, given the three sources.
pub open spec fn resolved_input(
    flag: Option<Seq<u8>>,
    env: Option<Seq<u8>>,
    es: Seq<(Seq<u8>, Seq<u8>)>,
    key: Seq<u8>,
) -> Option<Seq<u8>> {
    pick_first(flag, env, lookup_spec(es, key))
}

/// Resolves the whole configuration from flags, process environment and
/// file entries, with that precedence for each input. Fails exactly when a
/// required input is found in no source, naming the first missing one in
/// the order local path, remote, branch.
pub fn resolve_config(flags: RawConfig, envs: RawConfig, entries: &Vec<EnvEntry>) -> (r: Result<
    Config,
    MissingInput,
>)
    ensures
        ({
            let es = entry_views(entries@);
            let lp = resolved_input(opt_view(flags.local_path), opt_view(envs.local_path), es,
                local_path_key());
            let re = resolved_input(opt_view(flags.remote), opt_view(envs.remote), es,
                remote_key());
            let br = resolved_input(opt_view(flags.branch), opt_view(envs.branch), es,
                branch_key());
            let sk = resolved_input(opt_view(flags.ssh_key_path), opt_view(envs.ssh_key_path), es,
                ssh_key_path_key());
            match r {
                Ok(c) => {
                    &&& lp == Option::Some(c.local_path@)
                    &&& re == Option::Some(c.remote@)
                    &&& br == Option::Some(c.branch@)
                    &&& sk == opt_view(c.ssh_key_path)
                },
                Err(m) => {
                    &&& m is LocalPath <==> lp is None
                    &&& m is Remote <==> lp is Some && re is None
                    &&& m is Branch <==> lp is Some && re is Some && br is None
                },
            }
        }),
{
    let lp_file = first_value(entries, &local_path_key_bytes());
    let re_file = first_value(entries, &remote_key_bytes());
    let br_file = first_value(entries, &branch_key_bytes());
    let sk_file = first_value(entries, &ssh_key_path_key_bytes());
    let lp = pick_first_owned(flags.local_path, envs.local_path, lp_file);
    let re = pick_first_owned(flags.remote, envs.remote, re_file);
    let br = pick_first_owned(flags.branch, envs.branch, br_file);
    let sk = pick_first_owned(flags.ssh_key_path, envs.ssh_key_path, sk_file);
    let local_path = match lp {
        Option::Some(v) => v,
        Option::None => {
            return Err(MissingInput::LocalPath);
        },
    };
    let remote = match re {
        Option::Some(v) => v,
        Option::None => {
            return Err(MissingInput::Remote);
        },
    };
    let branch = match br {
        Option::Some(v) => v,
        Option::None => {
            return Err(MissingInput::Branch);
        },
    };
    Ok(Config { local_path, remote, branch, ssh_key_path: sk })
}

} // verus!
