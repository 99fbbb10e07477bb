//! Where source files come from.
//!
//! The compiler front-end (import resolution + type-checking) is identical
//! whether jimc runs as a native CLI over a real filesystem or embedded over
//! an in-memory map of virtual files. Both are expressed as a [`Loader`].
use vstd::prelude::*;
use crate::text::{framed, lit_string, push_char, push_str, string_of};

verus! {

/// Abstraction over a source of `.j` files. Paths are opaque strings whose only
/// meaning is what the implementor gives them.
pub trait Loader {
    /// The std-library root, if one is available, e.g. `"std"`.
    fn std_root(&self) -> Option<String>;
    /// Does a file exist at this (not-yet-canonical) path?
    fn has_file(&self, path: &str) -> bool;
    /// Canonical identity key for a path — also the key `read` expects.
    fn canonical(&self, path: &str) -> Result<String, String>;
    /// Read a file's contents by its canonical key.
    fn read(&self, canonical: &str) -> Result<String, String>;
    /// Is this canonical path inside the std root? (Gates `@intrinsics`.)
    fn is_under_std(&self, canonical: &str) -> bool;
    /// The directory containing this path (for resolving local imports).
    fn parent(&self, path: &str) -> String;
    /// Join a relative path onto a base directory.
    fn join(&self, base: &str, rel: &str) -> String;
    /// Human-readable name for diagnostics.
    fn display_name(&self, canonical: &str) -> String;
}

pub open spec fn is_sep(c: char) -> bool {
    c == '/' || c == '\\'
}

/// Add one path component to the components so far: empty and `.` are
/// dropped, `..` removes the last one (never escaping the root).
pub open spec fn push_part(out: Seq<Seq<char>>, part: Seq<char>) -> Seq<Seq<char>> {
    if part.len() == 0 || part == seq!['.'] {
        out
    } else if part == seq!['.', '.'] {
        if out.len() > 0 { out.drop_last() } else { out }
    } else {
        out.push(part)
    }
}

/// The components a path leaves after `.`/`..` resolution, scanning `s`
/// with `cur` the component being read.
pub open spec fn norm_scan(s: Seq<char>, out: Seq<Seq<char>>, cur: Seq<char>) -> Seq<Seq<char>>
    decreases s.len(),
{
    if s.len() == 0 {
        push_part(out, cur)
    } else if is_sep(s[0]) {
        norm_scan(s.drop_first(), push_part(out, cur), Seq::empty())
    } else {
        norm_scan(s.drop_first(), out, cur.push(s[0]))
    }
}

/// Components joined with `/`.
pub open spec fn join_slash(parts: Seq<Seq<char>>) -> Seq<char>
    decreases parts.len(),
{
    if parts.len() == 0 {
        Seq::empty()
    } else if parts.len() == 1 {
        parts[0]
    } else {
        parts[0] + seq!['/'] + join_slash(parts.drop_first())
    }
}

/// A path with `.`/`..` and duplicate or backslash separators collapsed
/// into a clean forward-slashed key.
pub open spec fn normalize_spec(s: Seq<char>) -> Seq<char> {
    join_slash(norm_scan(s, Seq::empty(), Seq::empty()))
}

/// A component that normalization keeps as it is.
pub open spec fn clean_part(p: Seq<char>) -> bool {
    &&& p.len() > 0
    &&& p != seq!['.']
    &&& p != seq!['.', '.']
    &&& forall|i: int| 0 <= i < p.len() ==> !is_sep(#[trigger] p[i])
}

pub open spec fn all_clean(parts: Seq<Seq<char>>) -> bool {
    forall|i: int| 0 <= i < parts.len() ==> clean_part(#[trigger] parts[i])
}

proof fn lemma_scan_clean(s: Seq<char>, out: Seq<Seq<char>>, cur: Seq<char>)
    requires
        all_clean(out),
        forall|i: int| 0 <= i < cur.len() ==> !is_sep(#[trigger] cur[i]),
    ensures
        all_clean(norm_scan(s, out, cur)),
    decreases s.len(),
{
    let pushed = push_part(out, cur);
    assert(all_clean(pushed)) by {
        if cur.len() == 0 || cur == seq!['.'] {
        } else if cur == seq!['.', '.'] {
        } else {
            assert forall|i: int| 0 <= i < pushed.len() implies clean_part(#[trigger] pushed[i]) by {
                if i < out.len() {
                    assert(pushed[i] == out[i]);
                }
            }
        }
    }
    if s.len() == 0 {
    } else if is_sep(s[0]) {
        lemma_scan_clean(s.drop_first(), pushed, Seq::empty());
    } else {
        let c2 = cur.push(s[0]);
        assert forall|i: int| 0 <= i < c2.len() implies !is_sep(#[trigger] c2[i]) by {
            if i < cur.len() {
                assert(c2[i] == cur[i]);
            }
        }
        lemma_scan_clean(s.drop_first(), out, c2);
    }
}

proof fn lemma_scan_word(p: Seq<char>, t: Seq<char>, out: Seq<Seq<char>>, cur: Seq<char>)
    requires
        forall|i: int| 0 <= i < p.len() ==> !is_sep(#[trigger] p[i]),
    ensures
        norm_scan(p + t, out, cur) == norm_scan(t, out, cur + p),
    decreases p.len(),
{
    if p.len() == 0 {
        assert(p + t == t);
        assert(cur + p == cur);
    } else {
        assert((p + t)[0] == p[0]);
        assert((p + t).drop_first() == p.drop_first() + t);
        lemma_scan_word(p.drop_first(), t, out, cur.push(p[0]));
        assert(cur.push(p[0]) + p.drop_first() == cur + p);
    }
}

proof fn lemma_scan_join(parts: Seq<Seq<char>>, out: Seq<Seq<char>>)
    requires
        all_clean(parts),
    ensures
        norm_scan(join_slash(parts), out, Seq::empty()) == out + parts,
    decreases parts.len(),
{
    if parts.len() == 0 {
        assert(out + parts == out);
    } else if parts.len() == 1 {
        let p0 = parts[0];
        assert(clean_part(p0));
        lemma_scan_word(p0, Seq::empty(), out, Seq::empty());
        assert(p0 + Seq::<char>::empty() == p0);
        assert(Seq::<char>::empty() + p0 == p0);
        assert(out + parts == out.push(p0));
    } else {
        let p0 = parts[0];
        assert(clean_part(p0));
        let rest = parts.drop_first();
        assert(all_clean(rest)) by {
            assert forall|i: int| 0 <= i < rest.len() implies clean_part(#[trigger] rest[i]) by {
                assert(rest[i] == parts[i + 1]);
            }
        }
        let t = seq!['/'] + join_slash(rest);
        assert(p0 + seq!['/'] + join_slash(rest) == p0 + t);
        lemma_scan_word(p0, t, out, Seq::empty());
        assert(Seq::<char>::empty() + p0 == p0);
        assert(t[0] == '/');
        assert(t.drop_first() == join_slash(rest));
        lemma_scan_join(rest, out.push(p0));
        assert(out.push(p0) + rest == out + parts);
    }
}

/// Normalizing twice is normalizing once: a normalized key names itself.
pub proof fn lemma_normalize_idempotent(s: Seq<char>)
    ensures
        normalize_spec(normalize_spec(s)) == normalize_spec(s),
{
    let parts = norm_scan(s, Seq::empty(), Seq::empty());
    lemma_scan_clean(s, Seq::empty(), Seq::empty());
    lemma_scan_join(parts, Seq::empty());
    assert(Seq::<Seq<char>>::empty() + parts == parts);
}

/// Collapse `.`/`..` and duplicate/backslash separators into a clean
/// forward-slashed key. A leading `..` that would escape the root is dropped.
pub fn normalize(path: &str) -> (r: String)
    ensures
        r@ == normalize_spec(path@),
{
    let s = crate::text::chars_of(path);
    let mut out: Vec<Vec<char>> = Vec::new();
    let mut cur: Vec<char> = Vec::new();
    let mut i: usize = 0;
    assert(s@.skip(0) == s@);
    assert(parts_view(out@) =~= Seq::<Seq<char>>::empty());
    assert(cur@ =~= Seq::<char>::empty());
    while i < s.len()
        invariant
            i <= s@.len(),
            s@ == path@,
            norm_scan(s@, Seq::empty(), Seq::empty()) == norm_scan(s@.skip(i as int), parts_view(out@), cur@),
        decreases s@.len() - i,
    {
        assert(s@.skip(i as int).drop_first() == s@.skip(i + 1));
        let c = s[i];
        if c == '/' || c == '\\' {
            push_part_exec(&mut out, cur);
            cur = Vec::new();
        } else {
            cur.push(c);
        }
        i += 1;
    }
    push_part_exec(&mut out, cur);
    assert(s@.skip(s@.len() as int) == Seq::<char>::empty());
    join_exec(&out)
}

pub open spec fn parts_view(v: Seq<Vec<char>>) -> Seq<Seq<char>> {
    v.map_values(|p: Vec<char>| p@)
}

fn push_part_exec(out: &mut Vec<Vec<char>>, part: Vec<char>)
    ensures
        parts_view(final(out)@) == push_part(parts_view(old(out)@), part@),
{
    let n = part.len();
    let is_dot = n == 1 && part[0] == '.';
    let is_dotdot = n == 2 && part[0] == '.' && part[1] == '.';
    assert(is_dot == (part@ == seq!['.'])) by {
        if part@ == seq!['.'] { assert(part@[0] == '.'); }
        if is_dot { assert(part@ =~= seq!['.']); }
    }
    assert(is_dotdot == (part@ == seq!['.', '.'])) by {
        if part@ == seq!['.', '.'] { assert(part@[0] == '.' && part@[1] == '.'); }
        if is_dotdot { assert(part@ =~= seq!['.', '.']); }
    }
    if n == 0 || is_dot {
    } else if is_dotdot {
        if out.len() > 0 {
            let _ = out.pop();
            assert(parts_view(out@) =~= parts_view(old(out)@).drop_last());
        }
    } else {
        out.push(part);
        assert(parts_view(out@) =~= parts_view(old(out)@).push(part@));
    }
}

fn join_exec(parts: &Vec<Vec<char>>) -> (r: String)
    ensures
        r@ == join_slash(parts_view(parts@)),
{
    let n = parts.len();
    let mut r = String::new();
    if n == 0 {
        return r;
    }
    // build from the back: r holds join_slash of parts[i..]
    let mut i: usize = n - 1;
    r = string_of(parts[i].as_slice());
    proof {
        let pv = parts_view(parts@);
        assert(pv.skip(i as int).len() == 1);
        assert(pv.skip(i as int)[0] == pv[i as int]);
    }
    while i > 0
        invariant
            0 <= i < n,
            n == parts@.len(),
            r@ == join_slash(parts_view(parts@).skip(i as int)),
        decreases i,
    {
        i -= 1;
        let mut head = string_of(parts[i].as_slice());
        push_char(&mut head, '/');
        push_str(&mut head, r.as_str());
        proof {
            let pv = parts_view(parts@);
            let t = pv.skip(i as int);
            assert(t.len() >= 2);
            assert(t[0] == pv[i as int]);
            assert(t.drop_first() == pv.skip(i + 1));
        }
        r = head;
    }
    assert(parts_view(parts@).skip(0) == parts_view(parts@));
    r
}

} // verus!

verus! {

/// A [`Loader`] backed by a `path -> source` table. Paths are normalized to
/// forward-slashed, `.`/`..`-resolved keys, so `"std/./io.j"` and
/// `"std/io.j"` address the same entry. When two entries share a key, the
/// later one is the file.
#[derive(Debug, Clone)]
pub struct MapLoader {
    files: Vec<(String, String)>,
    std_root: Option<String>,
}

pub open spec fn entries_view(v: Seq<(String, String)>) -> Seq<(Seq<char>, Seq<char>)> {
    v.map_values(|e: (String, String)| (e.0@, e.1@))
}

/// The contents stored under `key`: the last entry with that key.
pub open spec fn lookup(entries: Seq<(Seq<char>, Seq<char>)>, key: Seq<char>) -> Option<Seq<char>>
    decreases entries.len(),
{
    if entries.len() == 0 {
        None
    } else if entries.last().0 == key {
        Some(entries.last().1)
    } else {
        lookup(entries.drop_last(), key)
    }
}

pub open spec fn opt_view(o: Option<String>) -> Option<Seq<char>> {
    match o {
        Some(s) => Some(s@),
        None => None,
    }
}

pub open spec fn no_such_file(path: Seq<char>) -> Seq<char> {
    "jimc: cannot read '"@ + path + "': no such file"@
}

/// Does `c` lie inside the directory `root` (or name it)?
pub open spec fn under_root(root: Seq<char>, c: Seq<char>) -> bool {
    c == root || (c.len() > root.len() && c.subrange(0, root.len() as int) == root
        && c[root.len() as int] == '/')
}

/// The position of the last `/` in `s`, if any.
pub open spec fn last_slash(s: Seq<char>, i: int) -> Option<int>
    decreases i,
{
    if i <= 0 {
        None
    } else if s[i - 1] == '/' {
        Some(i - 1)
    } else {
        last_slash(s, i - 1)
    }
}

impl MapLoader {
    /// The stored (normalized key, contents) entries, in order.
    pub closed spec fn entries(&self) -> Seq<(Seq<char>, Seq<char>)> {
        entries_view(self.files@)
    }

    /// The normalized std root, if any.
    pub closed spec fn root(&self) -> Option<Seq<char>> {
        opt_view(self.std_root)
    }

    pub fn new(files: Vec<(String, String)>, std_root: Option<String>) -> (m: MapLoader)
        ensures
            m.entries().len() == files@.len(),
            forall|i: int| 0 <= i < files@.len() ==> #[trigger] m.entries()[i] == (
                normalize_spec(files@[i].0@),
                files@[i].1@,
            ),
            m.root() == (match std_root {
                Some(r) => Some(normalize_spec(r@)),
                None => None,
            }),
    {
        let mut out: Vec<(String, String)> = Vec::new();
        let mut i: usize = 0;
        while i < files.len()
            invariant
                i <= files@.len(),
                out@.len() == i,
                forall|j: int| 0 <= j < i ==> (#[trigger] out@[j]).0@ == normalize_spec(files@[j].0@)
                    && out@[j].1@ == files@[j].1@,
            decreases files@.len() - i,
        {
            let k = normalize(files[i].0.as_str());
            let v = files[i].1.clone();
            out.push((k, v));
            i += 1;
        }
        let std_root = match std_root {
            Some(r) => Some(normalize(r.as_str())),
            None => None,
        };
        let m = MapLoader { files: out, std_root };
        assert forall|i: int| 0 <= i < files@.len() implies #[trigger] m.entries()[i] == (
            normalize_spec(files@[i].0@),
            files@[i].1@,
        ) by {
            assert(m.entries()[i] == (out@[i].0@, out@[i].1@));
        }
        m
    }

    /// The contents under a normalized key (the last entry wins).
    fn find(&self, key: &String) -> (r: Option<String>)
        ensures
            opt_view(r) == lookup(self.entries(), key@),
    {
        let mut i = self.files.len();
        assert(self.entries().subrange(0, i as int) == self.entries());
        while i > 0
            invariant
                i <= self.files@.len(),
                lookup(self.entries(), key@) == lookup(self.entries().subrange(0, i as int), key@),
            decreases i,
        {
            let ghost sub = self.entries().subrange(0, i as int);
            assert(sub.drop_last() == self.entries().subrange(0, i - 1));
            if self.files[i - 1].0 == *key {
                return Some(self.files[i - 1].1.clone());
            }
            i -= 1;
        }
        None
    }
}

impl Loader for MapLoader {
    fn std_root(&self) -> (r: Option<String>)
        ensures
            opt_view(r) == self.root(),
    {
        match &self.std_root {
            Some(r) => Some(r.clone()),
            None => None,
        }
    }

    fn has_file(&self, path: &str) -> (b: bool)
        ensures
            b == (lookup(self.entries(), normalize_spec(path@)) is Some),
    {
        let n = normalize(path);
        self.find(&n).is_some()
    }

    fn canonical(&self, path: &str) -> (r: Result<String, String>)
        ensures
            lookup(self.entries(), normalize_spec(path@)) is Some ==> (r matches Ok(c) && c@
                == normalize_spec(path@)),
            lookup(self.entries(), normalize_spec(path@)) is None ==> (r matches Err(m) && m@
                == no_such_file(path@)),
    {
        let n = normalize(path);
        if self.find(&n).is_some() {
            Ok(n)
        } else {
            Err(framed("jimc: cannot read '", path, "': no such file"))
        }
    }

    fn read(&self, canonical: &str) -> (r: Result<String, String>)
        ensures
            match lookup(self.entries(), canonical@) {
                Some(v) => r matches Ok(c) && c@ == v,
                None => r matches Err(m) && m@ == no_such_file(canonical@),
            },
    {
        let key = lit_string(canonical);
        match self.find(&key) {
            Some(v) => Ok(v),
            None => Err(framed("jimc: cannot read '", canonical, "': no such file")),
        }
    }

    fn is_under_std(&self, canonical: &str) -> (b: bool)
        ensures
            b == (match self.root() {
                Some(root) => under_root(root, normalize_spec(canonical@)),
                None => false,
            }),
    {
        match &self.std_root {
            Some(root) => {
                let c = normalize(canonical);
                let cv = crate::text::chars_of(c.as_str());
                let rv = crate::text::chars_of(root.as_str());
                if cv.len() == rv.len() {
                    let same = crate::text::slice_is(cv.as_slice(), 0, cv.len(), root.as_str());
                    assert(cv@.subrange(0, cv@.len() as int) == cv@);
                    same
                } else if cv.len() > rv.len() {
                    let prefix = crate::text::slice_is(cv.as_slice(), 0, rv.len(), root.as_str());
                    assert(cv@ != root@);
                    prefix && cv[rv.len()] == '/'
                } else {
                    assert(cv@ != root@);
                    false
                }
            },
            None => false,
        }
    }

    fn parent(&self, path: &str) -> (r: String)
        ensures
            r@ == (match last_slash(normalize_spec(path@), normalize_spec(path@).len() as int) {
                Some(i) => normalize_spec(path@).subrange(0, i),
                None => Seq::empty(),
            }),
    {
        let n = normalize(path);
        let v = crate::text::chars_of(n.as_str());
        let mut i = v.len();
        while i > 0
            invariant
                i <= v@.len(),
                v@ == normalize_spec(path@),
                last_slash(v@, v@.len() as int) == last_slash(v@, i as int),
            decreases i,
        {
            if v[i - 1] == '/' {
                let mut out: Vec<char> = Vec::new();
                let mut j: usize = 0;
                while j < i - 1
                    invariant
                        j <= i - 1,
                        i <= v@.len(),
                        out@ == v@.subrange(0, j as int),
                    decreases i - 1 - j,
                {
                    out.push(v[j]);
                    assert(v@.subrange(0, j + 1) == v@.subrange(0, j as int).push(v@[j as int]));
                    j += 1;
                }
                return string_of(out.as_slice());
            }
            i -= 1;
        }
        String::new()
    }

    fn join(&self, base: &str, rel: &str) -> (r: String)
        ensures
            r@ == (if base@.len() == 0 {
                normalize_spec(rel@)
            } else {
                normalize_spec(base@ + seq!['/'] + rel@)
            }),
    {
        if base.unicode_len() == 0 {
            normalize(rel)
        } else {
            let mut s = lit_string(base);
            push_char(&mut s, '/');
            push_str(&mut s, rel);
            assert(s@ =~= base@ + seq!['/'] + rel@);
            normalize(s.as_str())
        }
    }

    fn display_name(&self, canonical: &str) -> (r: String)
        ensures
            r@ == canonical@,
    {
        lit_string(canonical)
    }
}

/// A key names its own entry: whatever a path is normalized to, normalizing
/// that key again finds the same file, so `read(canonical(p))` is the file at
/// `p`.
pub proof fn lemma_canonical_key_stable(m: &MapLoader, path: Seq<char>)
    ensures
        lookup(m.entries(), normalize_spec(normalize_spec(path))) == lookup(
            m.entries(),
            normalize_spec(path),
        ),
{
    lemma_normalize_idempotent(path);
}

} // verus!
