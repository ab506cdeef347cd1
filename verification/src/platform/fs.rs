//! Paths as text: component parsing, `.`/`..` normalization, `~` and
//! environment expansion, and order-preserving de-duplication.
//!
//! A path is the text of a POSIX path; its components are the root `/`, the
//! current directory `.`, the parent `..` and normal names, as `Path::components`
//! yields them. Component sequences are written as sequences of texts, the root
//! being the text "/".

use vstd::prelude::*;

use crate::text::{chars_of, lowercase, string_of, unicode_lowercase};

verus! {

pub open spec fn root_comp() -> Seq<char> {
    seq!['/']
}

pub open spec fn dot() -> Seq<char> {
    seq!['.']
}

pub open spec fn dot_dot() -> Seq<char> {
    seq!['.', '.']
}

/// The text between separators, left to right (always at least one piece).
pub open spec fn split_sep(s: Seq<char>) -> Seq<Seq<char>>
    decreases s.len(),
{
    if s.len() == 0 {
        seq![Seq::<char>::empty()]
    } else {
        let r = split_sep(s.drop_last());
        if s.last() == '/' {
            r.push(Seq::<char>::empty())
        } else {
            r.update(r.len() - 1, r.last().push(s.last()))
        }
    }
}

/// Non-empty pieces other than `.`, in order.
pub open spec fn body_comps(pieces: Seq<Seq<char>>) -> Seq<Seq<char>>
    decreases pieces.len(),
{
    if pieces.len() == 0 {
        Seq::empty()
    } else {
        let rest = body_comps(pieces.drop_last());
        let p = pieces.last();
        if p.len() == 0 || p == dot() {
            rest
        } else {
            rest.push(p)
        }
    }
}

pub open spec fn is_absolute(s: Seq<char>) -> bool {
    s.len() > 0 && s[0] == '/'
}

/// `Path::components`: a leading root, a leading `.` of a relative path, then
/// every non-empty piece other than `.`.
pub open spec fn comps(s: Seq<char>) -> Seq<Seq<char>> {
    let pieces = split_sep(s);
    if is_absolute(s) {
        seq![root_comp()] + body_comps(pieces)
    } else if pieces[0] == dot() {
        seq![dot()] + body_comps(pieces.drop_first())
    } else {
        body_comps(pieces)
    }
}

/// One step of normalization: `.` is dropped, `..` removes the last component
/// unless only the root (or nothing) is left, anything else is appended.
pub open spec fn norm_step(stack: Seq<Seq<char>>, c: Seq<char>) -> Seq<Seq<char>> {
    if c == dot() {
        stack
    } else if c == dot_dot() {
        if stack.len() == 0 || (stack.len() == 1 && stack[0] == root_comp()) {
            stack
        } else {
            stack.drop_last()
        }
    } else {
        stack.push(c)
    }
}

pub open spec fn norm_fold(cs: Seq<Seq<char>>) -> Seq<Seq<char>>
    decreases cs.len(),
{
    if cs.len() == 0 {
        Seq::empty()
    } else {
        norm_step(norm_fold(cs.drop_last()), cs.last())
    }
}

/// Names joined by single separators.
pub open spec fn join_names(names: Seq<Seq<char>>) -> Seq<char>
    decreases names.len(),
{
    if names.len() == 0 {
        Seq::empty()
    } else if names.len() == 1 {
        names[0]
    } else {
        join_names(names.drop_last()) + seq!['/'] + names.last()
    }
}

/// The text of a component sequence, as `PathBuf::push` builds it.
pub open spec fn render(stack: Seq<Seq<char>>) -> Seq<char> {
    if stack.len() > 0 && stack[0] == root_comp() {
        seq!['/'] + join_names(stack.drop_first())
    } else {
        join_names(stack)
    }
}

/// `normalize_path`: the components with `.` removed and `..` applied, rendered.
pub open spec fn normalized(s: Seq<char>) -> Seq<char> {
    render(norm_fold(comps(s)))
}

/// Component-wise prefix (`Path::starts_with`).
pub open spec fn comps_prefix(base: Seq<Seq<char>>, full: Seq<Seq<char>>) -> bool {
    base.len() <= full.len() && full.subrange(0, base.len() as int) == base
}

pub open spec fn texts(v: Seq<Vec<char>>) -> Seq<Seq<char>> {
    Seq::new(v.len(), |i: int| v[i]@)
}

proof fn lemma_split_sep_nonempty(s: Seq<char>)
    ensures
        split_sep(s).len() >= 1,
    decreases s.len(),
{
    if s.len() > 0 {
        lemma_split_sep_nonempty(s.drop_last());
    }
}

/// The pieces of a text between `/` separators.
fn split_pieces(cs: &Vec<char>) -> (out: Vec<Vec<char>>)
    ensures
        texts(out@) == split_sep(cs@),
{
    let mut done: Vec<Vec<char>> = Vec::new();
    let mut cur: Vec<char> = Vec::new();
    let n = cs.len();
    for i in 0..n
        invariant
            n == cs@.len(),
            texts(done@).push(cur@) == split_sep(cs@.take(i as int)),
    {
        let ghost pre = cs@.take(i as int);
        proof {
            lemma_split_sep_nonempty(pre);
            assert(cs@.take(i + 1).drop_last() =~= pre);
        }
        if cs[i] == '/' {
            let finished = cur;
            done.push(finished);
            cur = Vec::new();
            assert(texts(done@).push(cur@) =~= split_sep(pre).push(Seq::<char>::empty()));
        } else {
            let ghost old_cur = cur@;
            cur.push(cs[i]);
            assert(texts(done@).push(cur@) =~= split_sep(pre).update(
                split_sep(pre).len() - 1,
                old_cur.push(cs@[i as int]),
            ));
        }
    }
    assert(cs@.take(n as int) =~= cs@);
    done.push(cur);
    assert(texts(done@) =~= split_sep(cs@));
    done
}

fn is_dot_exec(v: &Vec<char>) -> (r: bool)
    ensures
        r == (v@ == dot()),
{
    let r = v.len() == 1 && v[0] == '.';
    assert(r ==> v@ =~= dot());
    r
}

fn is_dot_dot_exec(v: &Vec<char>) -> (r: bool)
    ensures
        r == (v@ == dot_dot()),
{
    let r = v.len() == 2 && v[0] == '.' && v[1] == '.';
    assert(r ==> v@ =~= dot_dot());
    r
}

fn is_root_exec(v: &Vec<char>) -> (r: bool)
    ensures
        r == (v@ == root_comp()),
{
    let r = v.len() == 1 && v[0] == '/';
    assert(r ==> v@ =~= root_comp());
    r
}

fn root_vec() -> (r: Vec<char>)
    ensures
        r@ == root_comp(),
{
    let mut r = Vec::new();
    r.push('/');
    assert(r@ =~= root_comp());
    r
}

fn dot_vec() -> (r: Vec<char>)
    ensures
        r@ == dot(),
{
    let mut r = Vec::new();
    r.push('.');
    assert(r@ =~= dot());
    r
}

/// Appends the body components of `pieces[from..]` to `out`.
fn push_body_comps(pieces: Vec<Vec<char>>, from: usize, out: &mut Vec<Vec<char>>)
    requires
        from <= pieces@.len(),
    ensures
        texts(final(out)@) == texts(old(out)@) + body_comps(
            texts(pieces@).subrange(from as int, pieces@.len() as int),
        ),
{
    let ghost ps = texts(pieces@);
    let ghost base = texts(out@);
    let n = pieces.len();
    let mut idx: usize = 0;
    assert(ps.subrange(from as int, from as int) =~= Seq::<Seq<char>>::empty());
    for p in it: pieces
        invariant
            n == ps.len(),
            ps == texts(it.seq()),
            from <= n,
            it.seq().len() == n,
            idx == it.index(),
            idx < from ==> texts(out@) == base,
            idx >= from ==> texts(out@) == base + body_comps(ps.subrange(from as int, idx as int)),
    {
        if idx >= from {
            let ghost prev = ps.subrange(from as int, idx as int);
            assert(ps.subrange(from as int, idx + 1).drop_last() =~= prev);
            assert(ps.subrange(from as int, idx + 1).last() == p@);
            if p.len() == 0 || is_dot_exec(&p) {
            } else {
                let ghost before = texts(out@);
                let ghost pv = p@;
                assert(before == base + body_comps(prev));
                out.push(p);
                assert(texts(out@) =~= before.push(pv));
                assert(texts(out@) =~= base + body_comps(prev).push(pv));
            }
        } else if idx + 1 == from {
            assert(ps.subrange(from as int, from as int) =~= Seq::<Seq<char>>::empty());
        }
        idx = idx + 1;
    }
    if from == n {
        assert(ps.subrange(from as int, n as int) =~= Seq::<Seq<char>>::empty());
    }
}

/// `Path::components`, each component as its text.
pub fn components(path: &str) -> (out: Vec<Vec<char>>)
    ensures
        texts(out@) == comps(path@),
{
    let cs = chars_of(path);
    let pieces = split_pieces(&cs);
    let ghost ps = texts(pieces@);
    proof {
        lemma_split_sep_nonempty(cs@);
    }
    let mut out: Vec<Vec<char>> = Vec::new();
    if cs.len() > 0 && cs[0] == '/' {
        out.push(root_vec());
        push_body_comps(pieces, 0, &mut out);
        assert(ps.subrange(0, ps.len() as int) =~= ps);
        assert(texts(out@) =~= seq![root_comp()] + body_comps(ps));
    } else if is_dot_exec(&pieces[0]) {
        out.push(dot_vec());
        push_body_comps(pieces, 1, &mut out);
        assert(ps.subrange(1, ps.len() as int) =~= ps.drop_first());
        assert(texts(out@) =~= seq![dot()] + body_comps(ps.drop_first()));
    } else {
        push_body_comps(pieces, 0, &mut out);
        assert(ps.subrange(0, ps.len() as int) =~= ps);
        assert(texts(out@) =~= body_comps(ps));
    }
    out
}

/// Applies `.`/`..` to a component sequence.
pub fn normalize_components(cs: Vec<Vec<char>>) -> (out: Vec<Vec<char>>)
    ensures
        texts(out@) == norm_fold(texts(cs@)),
{
    let ghost all = texts(cs@);
    let mut stack: Vec<Vec<char>> = Vec::new();
    let n = cs.len();
    let mut idx: usize = 0;
    for c in it: cs
        invariant
            n == all.len(),
            all == texts(it.seq()),
            it.seq().len() == n,
            idx == it.index(),
            texts(stack@) == norm_fold(all.take(idx as int)),
    {
        let ghost prev = texts(stack@);
        assert(all.take(idx + 1).drop_last() =~= all.take(idx as int));
        assert(all.take(idx + 1).last() == c@);
        if is_dot_exec(&c) {
        } else if is_dot_dot_exec(&c) {
            if stack.len() == 0 || (stack.len() == 1 && is_root_exec(&stack[0])) {
            } else {
                stack.pop();
                assert(texts(stack@) =~= prev.drop_last());
            }
        } else {
            stack.push(c);
            assert(texts(stack@) =~= prev.push(all[idx as int]));
        }
        idx = idx + 1;
    }
    assert(all.take(n as int) =~= all);
    stack
}

fn push_chars(out: &mut String, cs: &Vec<char>)
    ensures
        final(out)@ == old(out)@ + cs@,
{
    let n = cs.len();
    let ghost start = out@;
    for i in 0..n
        invariant
            n == cs@.len(),
            out@ == start + cs@.take(i as int),
    {
        out.push(cs[i]);
        assert(cs@.take(i + 1) =~= cs@.take(i as int).push(cs@[i as int]));
        assert(start + cs@.take(i + 1) =~= (start + cs@.take(i as int)).push(cs@[i as int]));
    }
    assert(cs@.take(n as int) =~= cs@);
}

/// The text of a component sequence.
pub fn render_components(stack: &Vec<Vec<char>>) -> (out: String)
    ensures
        out@ == render(texts(stack@)),
{
    let ghost st = texts(stack@);
    let mut out = String::new();
    let mut first: usize = 0;
    if stack.len() > 0 && is_root_exec(&stack[0]) {
        out.push('/');
        first = 1;
    }
    let ghost names = st.subrange(first as int, st.len() as int);
    assert(first == 1 ==> names =~= st.drop_first());
    assert(first == 0 ==> names =~= st);
    let ghost lead = out@;
    let n = stack.len();
    for i in first..n
        invariant
            n == st.len(),
            st == texts(stack@),
            first <= i <= n,
            names == st.subrange(first as int, n as int),
            out@ == lead + join_names(st.subrange(first as int, i as int)),
    {
        let ghost part = st.subrange(first as int, i as int);
        assert(st.subrange(first as int, i + 1).drop_last() =~= part);
        assert(st.subrange(first as int, i + 1).last() == stack@[i as int]@);
        if i > first {
            out.push('/');
        } else {
            assert(part =~= Seq::<Seq<char>>::empty());
        }
        push_chars(&mut out, &stack[i]);
        assert(out@ =~= lead + join_names(st.subrange(first as int, i + 1)));
    }
    assert(out@ =~= render(st));
    out
}

/// `normalize_path`: removes `.` components and applies `..` components.
pub fn normalize_path(path: &str) -> (out: String)
    ensures
        out@ == normalized(path@),
{
    let cs = components(path);
    let stack = normalize_components(cs);
    render_components(&stack)
}


/// A component other than the root, `.` and `..`.
pub open spec fn is_normal(c: Seq<char>) -> bool {
    c != root_comp() && c != dot() && c != dot_dot()
}

/// `Path::file_name`: the last component when it is a normal name.
pub open spec fn file_name_of(s: Seq<char>) -> Option<Seq<char>> {
    let c = comps(s);
    if c.len() > 0 && is_normal(c.last()) {
        Some(c.last())
    } else {
        None
    }
}

/// `Path::parent`: the path without its last component; none for the root or
/// an empty path.
pub open spec fn parent_of(s: Seq<char>) -> Option<Seq<char>> {
    let c = comps(s);
    if c.len() > 0 && c.last() != root_comp() {
        Some(render(c.drop_last()))
    } else {
        None
    }
}

/// `Path::join` on text: an absolute `rel` replaces `base`, otherwise one
/// separator is put between them unless `base` is empty or already ends in one.
pub open spec fn join_text(base: Seq<char>, rel: Seq<char>) -> Seq<char> {
    if is_absolute(rel) || base.len() == 0 {
        rel
    } else if base.last() == '/' {
        base + rel
    } else {
        base + seq!['/'] + rel
    }
}

/// `Path::starts_with`: the components of `base` begin the components of `path`.
pub open spec fn path_starts_with(path: Seq<char>, base: Seq<char>) -> bool {
    comps_prefix(comps(base), comps(path))
}

/// Index of the last `.` in `f`, or -1.
pub open spec fn last_dot(f: Seq<char>) -> int
    decreases f.len(),
{
    if f.len() == 0 {
        -1
    } else if f.last() == '.' {
        f.len() - 1
    } else {
        last_dot(f.drop_last())
    }
}

/// `Path::extension` of a file name: the text after the last `.`, unless the
/// only `.` starts the name.
pub open spec fn extension_of_name(f: Seq<char>) -> Option<Seq<char>> {
    let d = last_dot(f);
    if d <= 0 {
        None
    } else {
        Some(f.subrange(d + 1, f.len() as int))
    }
}

/// `Path::file_stem` of a file name.
pub open spec fn stem_of_name(f: Seq<char>) -> Seq<char> {
    let d = last_dot(f);
    if d <= 0 {
        f
    } else {
        f.subrange(0, d)
    }
}

pub proof fn lemma_last_dot_bounds(f: Seq<char>)
    ensures
        -1 <= last_dot(f) < f.len(),
        last_dot(f) >= 0 ==> f[last_dot(f)] == '.',
        forall|k: int| last_dot(f) < k < f.len() ==> f[k] != '.',
    decreases f.len(),
{
    if f.len() > 0 && f.last() != '.' {
        let g = f.drop_last();
        lemma_last_dot_bounds(g);
        assert forall|k: int| last_dot(f) < k < f.len() implies f[k] != '.' by {
            if k < f.len() - 1 {
                assert(f[k] == g[k]);
            }
        }
    }
}

/// `Path::file_name`.
pub fn file_name(path: &str) -> (r: Option<String>)
    ensures
        r matches Some(n) ==> file_name_of(path@) == Some(n@),
        r is None ==> file_name_of(path@) is None,
{
    let cs = components(path);
    let n = cs.len();
    if n == 0 {
        return None;
    }
    let last = &cs[n - 1];
    if is_root_exec(last) || is_dot_exec(last) || is_dot_dot_exec(last) {
        None
    } else {
        Some(string_of(last))
    }
}

/// `Path::parent`.
pub fn parent(path: &str) -> (r: Option<String>)
    ensures
        r matches Some(p) ==> parent_of(path@) == Some(p@),
        r is None ==> parent_of(path@) is None,
{
    let mut cs = components(path);
    let n = cs.len();
    if n == 0 {
        return None;
    }
    if is_root_exec(&cs[n - 1]) {
        return None;
    }
    let ghost all = texts(cs@);
    cs.pop();
    assert(texts(cs@) =~= all.drop_last());
    Some(render_components(&cs))
}

/// `Path::join`.
pub fn join(base: &str, rel: &str) -> (r: String)
    ensures
        r@ == join_text(base@, rel@),
{
    let b = chars_of(base);
    let x = chars_of(rel);
    let mut out = String::new();
    if (x.len() > 0 && x[0] == '/') || b.len() == 0 {
        push_chars(&mut out, &x);
        assert(out@ =~= rel@);
        return out;
    }
    push_chars(&mut out, &b);
    if b[b.len() - 1] != '/' {
        out.push('/');
    }
    push_chars(&mut out, &x);
    assert(out@ =~= join_text(base@, rel@));
    out
}

/// Component-wise prefix test on component lists.
fn comps_prefix_exec(base: &Vec<Vec<char>>, full: &Vec<Vec<char>>) -> (r: bool)
    ensures
        r == comps_prefix(texts(base@), texts(full@)),
{
    if base.len() > full.len() {
        return false;
    }
    let n = base.len();
    for i in 0..n
        invariant
            n == base@.len(),
            n <= full@.len(),
            forall|k: int| 0 <= k < i ==> base@[k]@ == full@[k]@,
    {
        if !vec_chars_eq(&base[i], &full[i]) {
            assert(texts(full@).subrange(0, n as int)[i as int] != texts(base@)[i as int]);
            return false;
        }
    }
    assert(texts(full@).subrange(0, n as int) =~= texts(base@));
    true
}

fn vec_chars_eq(a: &Vec<char>, b: &Vec<char>) -> (r: bool)
    ensures
        r == (a@ == b@),
{
    if a.len() != b.len() {
        return false;
    }
    let n = a.len();
    for i in 0..n
        invariant
            n == a@.len(),
            n == b@.len(),
            forall|k: int| 0 <= k < i ==> a@[k] == b@[k],
    {
        if a[i] != b[i] {
            return false;
        }
    }
    assert(a@ =~= b@);
    true
}

/// `Path::starts_with`.
pub fn starts_with_path(path: &str, base: &str) -> (r: bool)
    ensures
        r == path_starts_with(path@, base@),
{
    let p = components(path);
    let b = components(base);
    comps_prefix_exec(&b, &p)
}

/// `Path` equality, which compares components.
pub fn same_path(a: &str, b: &str) -> (r: bool)
    ensures
        r == (comps(a@) == comps(b@)),
{
    let x = components(a);
    let y = components(b);
    if x.len() != y.len() {
        return false;
    }
    let r = comps_prefix_exec(&y, &x);
    assert(texts(x@).subrange(0, texts(y@).len() as int) =~= texts(x@));
    r
}

fn last_dot_exec(f: &Vec<char>) -> (r: Option<usize>)
    ensures
        r matches Some(d) ==> d == last_dot(f@),
        r is None ==> last_dot(f@) == -1,
{
    let mut i = f.len();
    assert(f@.take(i as int) =~= f@);
    while i > 0
        invariant
            i <= f@.len(),
            last_dot(f@) == last_dot(f@.take(i as int)),
        decreases i,
    {
        if f[i - 1] == '.' {
            return Some(i - 1);
        }
        assert(f@.take(i as int).drop_last() =~= f@.take(i - 1));
        i = i - 1;
    }
    None
}

/// `Path::extension` of a file name.
pub fn extension_of(name: &str) -> (r: Option<String>)
    ensures
        r matches Some(e) ==> extension_of_name(name@) == Some(e@),
        r is None ==> extension_of_name(name@) is None,
{
    let f = chars_of(name);
    let d = last_dot_exec(&f);
    proof {
        lemma_last_dot_bounds(f@);
    }
    match d {
        Some(d) => {
            if d == 0 {
                None
            } else {
                Some(crate::text::string_of_range(&f, d + 1, f.len()))
            }
        },
        None => None,
    }
}

/// `Path::file_stem` of a file name.
pub fn stem_of(name: &str) -> (r: String)
    ensures
        r@ == stem_of_name(name@),
{
    let f = chars_of(name);
    let d = last_dot_exec(&f);
    proof {
        lemma_last_dot_bounds(f@);
    }
    match d {
        Some(d) => {
            if d == 0 {
                string_of(&f)
            } else {
                crate::text::string_of_range(&f, 0, d)
            }
        },
        None => string_of(&f),
    }
}

/// What path expansion reads from the process: the home directory and the
/// environment variables (name, value) that hold valid text.
pub struct PathContext {
    pub home: Option<String>,
    pub vars: Vec<(String, String)>,
}

/// The value of the first variable named `key`.
pub open spec fn env_value(vars: Seq<(String, String)>, key: Seq<char>) -> Option<Seq<char>>
    decreases vars.len(),
{
    if vars.len() == 0 {
        None
    } else if vars[0].0@ == key {
        Some(vars[0].1@)
    } else {
        env_value(vars.drop_first(), key)
    }
}

/// Index of the first `ch` at or after `start`, or `cs.len()` when there is none.
pub open spec fn find_from(cs: Seq<char>, start: int, ch: char) -> int
    decreases cs.len() - start,
{
    if start < 0 || start >= cs.len() {
        cs.len() as int
    } else if cs[start] == ch {
        start
    } else {
        find_from(cs, start + 1, ch)
    }
}

pub proof fn lemma_find_from(cs: Seq<char>, start: int, ch: char)
    requires
        0 <= start <= cs.len(),
    ensures
        start <= find_from(cs, start, ch) <= cs.len(),
        find_from(cs, start, ch) < cs.len() ==> cs[find_from(cs, start, ch)] == ch,
        forall|k: int| start <= k < find_from(cs, start, ch) ==> cs[k] != ch,
    decreases cs.len() - start,
{
    if start < cs.len() && cs[start] != ch {
        lemma_find_from(cs, start + 1, ch);
    }
}

/// Where a `%NAME%` marker starting at `i` is replaced: the closing `%` and the value.
pub open spec fn percent_marker(cs: Seq<char>, i: int, vars: Seq<(String, String)>) -> Option<(int, Seq<char>)> {
    if 0 <= i < cs.len() && cs[i] == '%' {
        let end = find_from(cs, i + 1, '%');
        if end < cs.len() {
            match env_value(vars, cs.subrange(i + 1, end)) {
                Some(v) => Some((end, v)),
                None => None,
            }
        } else {
            None
        }
    } else {
        None
    }
}

/// Where a `${NAME}` marker starting at `i` is replaced: the closing `}` and the value.
pub open spec fn brace_marker(cs: Seq<char>, i: int, vars: Seq<(String, String)>) -> Option<(int, Seq<char>)> {
    if 0 <= i && i + 2 < cs.len() && cs[i] == '$' && cs[i + 1] == '{' {
        let end = find_from(cs, i + 2, '}');
        if end < cs.len() {
            match env_value(vars, cs.subrange(i + 2, end)) {
                Some(v) => Some((end, v)),
                None => None,
            }
        } else {
            None
        }
    } else {
        None
    }
}

/// The expansion of `cs[i..]`: each `%NAME%` or `${NAME}` whose variable is set
/// becomes its value; every other character is kept.
pub open spec fn expand_from(cs: Seq<char>, i: int, vars: Seq<(String, String)>) -> Seq<char>
    decreases cs.len() - i,
{
    if i < 0 || i >= cs.len() {
        Seq::empty()
    } else {
        proof {
            lemma_find_from(cs, i + 1, '%');
            if i + 2 <= cs.len() {
                lemma_find_from(cs, i + 2, '}');
            }
        }
        match percent_marker(cs, i, vars) {
            Some((end, v)) => v + expand_from(cs, end + 1, vars),
            None => match brace_marker(cs, i, vars) {
                Some((end, v)) => v + expand_from(cs, end + 1, vars),
                None => seq![cs[i]] + expand_from(cs, i + 1, vars),
            },
        }
    }
}

/// `~/rest` becomes the home directory joined with `rest` when the home is known.
pub open spec fn home_expanded(raw: Seq<char>, home: Option<String>) -> Seq<char> {
    if raw.len() >= 2 && raw[0] == '~' && raw[1] == '/' {
        match home {
            Some(h) => join_text(h@, raw.subrange(2, raw.len() as int)),
            None => raw,
        }
    } else {
        raw
    }
}

/// `expand_user_and_env`.
pub open spec fn expanded(raw: Seq<char>, ctx: PathContext) -> Seq<char> {
    expand_from(home_expanded(raw, ctx.home), 0, ctx.vars@)
}

/// `resolve_path`: expansion followed by normalization.
pub open spec fn resolved(raw: Seq<char>, ctx: PathContext) -> Seq<char> {
    normalized(expanded(raw, ctx))
}

fn lookup_var(vars: &Vec<(String, String)>, key: &Vec<char>) -> (r: Option<String>)
    ensures
        r matches Some(v) ==> env_value(vars@, key@) == Some(v@),
        r is None ==> env_value(vars@, key@) is None,
{
    let n = vars.len();
    assert(vars@.subrange(0, n as int) =~= vars@);
    for i in 0..n
        invariant
            n == vars@.len(),
            env_value(vars@, key@) == env_value(vars@.subrange(i as int, n as int), key@),
    {
        assert(vars@.subrange(i as int, n as int).drop_first() =~= vars@.subrange(i + 1, n as int));
        let name = chars_of(vars[i].0.as_str());
        if vec_chars_eq(&name, key) {
            let v = crate::text::owned(vars[i].1.as_str());
            return Some(v);
        }
    }
    None
}

fn find_from_exec(cs: &Vec<char>, start: usize, ch: char) -> (r: usize)
    requires
        start <= cs@.len(),
    ensures
        r == find_from(cs@, start as int, ch),
{
    let mut j = start;
    while j < cs.len() && cs[j] != ch
        invariant
            start <= j <= cs@.len(),
            find_from(cs@, start as int, ch) == find_from(cs@, j as int, ch),
        decreases cs@.len() - j,
    {
        j = j + 1;
    }
    j
}

fn subrange_vec(cs: &Vec<char>, from: usize, to: usize) -> (r: Vec<char>)
    requires
        from <= to <= cs@.len(),
    ensures
        r@ == cs@.subrange(from as int, to as int),
{
    let mut r = Vec::new();
    for i in from..to
        invariant
            from <= i <= to <= cs@.len(),
            r@ == cs@.subrange(from as int, i as int),
    {
        r.push(cs[i]);
        assert(cs@.subrange(from as int, i + 1) =~= r@);
    }
    r
}

/// Replaces `%NAME%` and `${NAME}` markers whose variable is set.
pub fn expand_env_markers(input: &str, vars: &Vec<(String, String)>) -> (out: String)
    ensures
        out@ == expand_from(input@, 0, vars@),
{
    let cs = chars_of(input);
    let mut out = String::new();
    let mut i: usize = 0;
    while i < cs.len()
        invariant
            cs@ == input@,
            i <= cs@.len(),
            out@ + expand_from(cs@, i as int, vars@) == expand_from(cs@, 0, vars@),
        decreases cs@.len() - i,
    {
        proof {
            lemma_find_from(cs@, i + 1, '%');
            if i + 2 <= cs@.len() {
                lemma_find_from(cs@, i + 2, '}');
            }
        }
        if cs[i] == '%' {
            let start = i + 1;
            let end = find_from_exec(&cs, start, '%');
            if end < cs.len() {
                let key = subrange_vec(&cs, start, end);
                if let Some(value) = lookup_var(vars, &key) {
                    let ghost before = out@;
                    out.push_str(value.as_str());
                    assert(out@ + expand_from(cs@, end + 1, vars@) =~= before + expand_from(
                        cs@,
                        i as int,
                        vars@,
                    ));
                    i = end + 1;
                    continue;
                }
            }
        }
        if cs.len() - i > 2 && cs[i] == '$' && cs[i + 1] == '{' {
            let start = i + 2;
            let end = find_from_exec(&cs, start, '}');
            if end < cs.len() {
                let key = subrange_vec(&cs, start, end);
                if let Some(value) = lookup_var(vars, &key) {
                    let ghost before = out@;
                    out.push_str(value.as_str());
                    assert(percent_marker(cs@, i as int, vars@) is None);
                    assert(out@ + expand_from(cs@, end + 1, vars@) =~= before + expand_from(
                        cs@,
                        i as int,
                        vars@,
                    ));
                    i = end + 1;
                    continue;
                }
            }
        }
        let ghost before = out@;
        out.push(cs[i]);
        assert(percent_marker(cs@, i as int, vars@) is None);
        assert(brace_marker(cs@, i as int, vars@) is None);
        assert(out@ + expand_from(cs@, i + 1, vars@) =~= before + expand_from(
            cs@,
            i as int,
            vars@,
        ));
        i = i + 1;
    }
    assert(out@ =~= expand_from(cs@, 0, vars@));
    out
}

/// `expand_user_and_env`: `~/` through the home directory, then `%NAME%` and
/// `${NAME}` through the environment.
pub fn expand_user_and_env(raw: &str, ctx: &PathContext) -> (out: String)
    ensures
        out@ == expanded(raw@, *ctx),
{
    let cs = chars_of(raw);
    let with_home = if cs.len() >= 2 && cs[0] == '~' && cs[1] == '/' {
        match &ctx.home {
            Some(home) => {
                let rest = crate::text::string_of_range(&cs, 2, cs.len());
                join(home.as_str(), rest.as_str())
            },
            None => crate::text::owned(raw),
        }
    } else {
        crate::text::owned(raw)
    };
    expand_env_markers(with_home.as_str(), &ctx.vars)
}

/// `resolve_path`: expands `~` and environment markers, then normalizes.
pub fn resolve_path(raw: &str, ctx: &PathContext) -> (out: String)
    ensures
        out@ == resolved(raw@, *ctx),
{
    let e = expand_user_and_env(raw, ctx);
    normalize_path(e.as_str())
}

/// The key under which two paths count as the same location: the lowercase
/// text of the normalized path.
pub open spec fn path_key(p: Seq<char>) -> Seq<char> {
    unicode_lowercase(normalized(p))
}

/// Normalized paths, keeping the first of those with equal lowercase text.
pub open spec fn dedup_normalized(paths: Seq<Seq<char>>) -> Seq<Seq<char>>
    decreases paths.len(),
{
    if paths.len() == 0 {
        Seq::empty()
    } else {
        let r = dedup_normalized(paths.drop_last());
        let n = normalized(paths.last());
        if exists|k: int| 0 <= k < r.len() && unicode_lowercase(#[trigger] r[k]) == unicode_lowercase(n) {
            r
        } else {
            r.push(n)
        }
    }
}

pub open spec fn string_views(v: Seq<String>) -> Seq<Seq<char>> {
    Seq::new(v.len(), |i: int| v[i]@)
}

/// `normalize_and_dedup_paths`: normalizes each path and drops any whose
/// lowercase normalized text was already seen, keeping the input order.
pub fn normalize_and_dedup_paths(paths: Vec<String>) -> (out: Vec<String>)
    ensures
        string_views(out@) == dedup_normalized(string_views(paths@)),
{
    let ghost all = string_views(paths@);
    let mut out: Vec<String> = Vec::new();
    let mut keys: Vec<String> = Vec::new();
    let n = paths.len();
    for i in 0..n
        invariant
            n == paths@.len(),
            all == string_views(paths@),
            keys@.len() == out@.len(),
            forall|k: int| 0 <= k < keys@.len() ==> keys@[k]@ == unicode_lowercase(#[trigger] out@[k]@),
            string_views(out@) == dedup_normalized(all.take(i as int)),
    {
        let normalized_path = normalize_path(paths[i].as_str());
        let key = lowercase(normalized_path.as_str());
        assert(all.take(i + 1).drop_last() =~= all.take(i as int));
        assert(all.take(i + 1).last() == paths@[i as int]@);
        let mut seen = false;
        let mut j: usize = 0;
        while j < keys.len()
            invariant
                keys@.len() == out@.len(),
                j <= keys@.len(),
                forall|k: int| 0 <= k < keys@.len() ==> keys@[k]@ == unicode_lowercase(#[trigger] out@[k]@),
                seen == exists|k: int| 0 <= k < j && unicode_lowercase(#[trigger] out@[k]@) == key@,
            decreases keys@.len() - j,
        {
            let same = crate::text::str_eq(keys[j].as_str(), key.as_str());
            assert(keys@[j as int]@ == unicode_lowercase(out@[j as int]@));
            if same {
                seen = true;
            }
            assert(seen == exists|k: int| 0 <= k < j + 1 && unicode_lowercase(#[trigger] out@[k]@) == key@) by {
                if !same && !(exists|k: int| 0 <= k < j && unicode_lowercase(#[trigger] out@[k]@) == key@) {
                    assert forall|k: int| 0 <= k < j + 1 implies unicode_lowercase(#[trigger] out@[k]@) != key@ by {
                    }
                }
            }
            j = j + 1;
        }
        let ghost prev = string_views(out@);
        assert(seen == exists|k: int| 0 <= k < prev.len() && unicode_lowercase(#[trigger] prev[k]) == unicode_lowercase(normalized(paths@[i as int]@))) by {
            if seen {
                let k = choose|k: int| 0 <= k < j && unicode_lowercase(#[trigger] out@[k]@) == key@;
                assert(prev[k] == out@[k]@);
            }
            if exists|k: int| 0 <= k < prev.len() && unicode_lowercase(#[trigger] prev[k]) == unicode_lowercase(normalized(paths@[i as int]@)) {
                let k = choose|k: int| 0 <= k < prev.len() && unicode_lowercase(#[trigger] prev[k]) == unicode_lowercase(normalized(paths@[i as int]@));
                assert(unicode_lowercase(out@[k]@) == key@);
            }
        }
        if !seen {
            out.push(normalized_path);
            keys.push(key);
            assert(string_views(out@) =~= prev.push(normalized(paths@[i as int]@)));
        }
    }
    assert(all.take(n as int) =~= all);
    out
}

/// What the file system reports about a path.
#[derive(Clone, Copy, Debug)]
pub struct PathProbe {
    pub exists: bool,
    pub is_dir: bool,
    pub is_file: bool,
}

/// Why a path was refused as a directory.
pub enum DirectoryError {
    Missing(String),
    NotADirectory(String),
}

impl DirectoryError {
    /// The message shown for this error.
    pub open spec fn text(&self) -> Seq<char> {
        match self {
            DirectoryError::Missing(p) => "directory does not exist: "@ + p@,
            DirectoryError::NotADirectory(p) => "path is not a directory: "@ + p@,
        }
    }

    pub fn message(&self) -> (m: String)
        ensures
            m@ == self.text(),
    {
        proof {
            reveal_strlit("directory does not exist: ");
            reveal_strlit("path is not a directory: ");
        }
        match self {
            DirectoryError::Missing(p) => crate::text::concat2("directory does not exist: ", p.as_str()),
            DirectoryError::NotADirectory(p) => crate::text::concat2("path is not a directory: ", p.as_str()),
        }
    }
}

/// `validate_directory`: the path must exist and be a directory.
pub fn validate_directory(path: &str, probe: PathProbe) -> (r: Result<(), DirectoryError>)
    ensures
        r is Ok <==> probe.exists && probe.is_dir,
        !probe.exists ==> (r matches Err(DirectoryError::Missing(p)) && p@ == path@),
        probe.exists && !probe.is_dir ==> (r matches Err(DirectoryError::NotADirectory(p)) && p@ == path@),
{
    if !probe.exists {
        return Err(DirectoryError::Missing(crate::text::owned(path)));
    }
    if !probe.is_dir {
        return Err(DirectoryError::NotADirectory(crate::text::owned(path)));
    }
    Ok(())
}


/// One path found while walking a directory tree, and whether it is a file.
#[derive(Clone, Debug)]
pub struct ListedPath {
    pub path: String,
    pub is_file: bool,
}

/// What walking a directory tree reported: the root itself and the paths under it.
#[derive(Clone, Debug)]
pub struct DirectoryListing {
    pub root: PathProbe,
    pub entries: Vec<ListedPath>,
}

/// The file paths among the listed paths, in order.
pub open spec fn files_of(entries: Seq<ListedPath>) -> Seq<Seq<char>>
    decreases entries.len(),
{
    if entries.len() == 0 {
        Seq::empty()
    } else {
        let r = files_of(entries.drop_last());
        if entries.last().is_file {
            r.push(entries.last().path@)
        } else {
            r
        }
    }
}

/// The file paths among the listed paths, in order.
pub fn listed_files(entries: &Vec<ListedPath>) -> (out: Vec<String>)
    ensures
        string_views(out@) == files_of(entries@),
{
    let mut out: Vec<String> = Vec::new();
    let n = entries.len();
    for i in 0..n
        invariant
            n == entries@.len(),
            string_views(out@) == files_of(entries@.take(i as int)),
    {
        assert(entries@.take(i + 1).drop_last() =~= entries@.take(i as int));
        if entries[i].is_file {
            let ghost prev = string_views(out@);
            out.push(entries[i].path.clone());
            assert(string_views(out@) =~= prev.push(entries@[i as int].path@));
        }
    }
    assert(entries@.take(n as int) =~= entries@);
    out
}


/// No separator in the text.
pub open spec fn no_sep(w: Seq<char>) -> bool {
    forall|i: int| 0 <= i < w.len() ==> w[i] != '/'
}

/// A component sequence as `comps` produces them: an optional leading root or
/// `.`, then non-empty separator-free components other than `.`.
pub open spec fn valid_comps(c: Seq<Seq<char>>) -> bool {
    &&& forall|i: int| 0 <= i < c.len() ==> c[i].len() > 0
    &&& forall|i: int| 0 <= i < c.len() && !(i == 0 && c[i] == root_comp()) ==> no_sep(#[trigger] c[i])
    &&& forall|i: int| 1 <= i < c.len() ==> #[trigger] c[i] != dot()
}

/// A normalized component sequence: an optional leading root, then names.
pub open spec fn normal_comps(c: Seq<Seq<char>>) -> bool {
    &&& valid_comps(c)
    &&& forall|i: int| 0 <= i < c.len() ==> #[trigger] c[i] != dot() && c[i] != dot_dot()
}

proof fn lemma_split_concat(a: Seq<char>, b: Seq<char>)
    ensures
        split_sep(a + seq!['/'] + b) == split_sep(a) + split_sep(b),
    decreases b.len(),
{
    let s = a + seq!['/'] + b;
    if b.len() == 0 {
        assert(s.drop_last() =~= a);
        lemma_split_sep_nonempty(a);
        assert(split_sep(s) =~= split_sep(a) + split_sep(b));
    } else {
        let b0 = b.drop_last();
        lemma_split_concat(a, b0);
        assert(s.drop_last() =~= a + seq!['/'] + b0);
        lemma_split_sep_nonempty(b0);
        lemma_split_sep_nonempty(a);
        assert(split_sep(s) =~= split_sep(a) + split_sep(b));
    }
}

proof fn lemma_split_word(w: Seq<char>)
    requires
        no_sep(w),
    ensures
        split_sep(w) == seq![w],
    decreases w.len(),
{
    if w.len() > 0 {
        lemma_split_word(w.drop_last());
        assert(w.drop_last().push(w.last()) =~= w);
        assert(split_sep(w) =~= seq![w]);
    } else {
        assert(w =~= Seq::<char>::empty());
    }
}

proof fn lemma_split_join(ns: Seq<Seq<char>>)
    requires
        ns.len() >= 1,
        forall|i: int| 0 <= i < ns.len() ==> no_sep(#[trigger] ns[i]),
    ensures
        split_sep(join_names(ns)) == ns,
    decreases ns.len(),
{
    if ns.len() == 1 {
        assert(no_sep(ns[0]));
        lemma_split_word(ns[0]);
        assert(split_sep(join_names(ns)) =~= ns);
    } else {
        let init = ns.drop_last();
        assert forall|i: int| 0 <= i < init.len() implies no_sep(#[trigger] init[i]) by {
            assert(init[i] == ns[i]);
        }
        lemma_split_join(init);
        lemma_split_concat(join_names(init), ns.last());
        assert(no_sep(ns[ns.len() - 1]));
        lemma_split_word(ns.last());
        assert(split_sep(join_names(ns)) =~= ns);
    }
}

proof fn lemma_body_concat(a: Seq<Seq<char>>, b: Seq<Seq<char>>)
    ensures
        body_comps(a + b) == body_comps(a) + body_comps(b),
    decreases b.len(),
{
    if b.len() == 0 {
        assert(a + b =~= a);
        assert(body_comps(a) + body_comps(b) =~= body_comps(a));
    } else {
        lemma_body_concat(a, b.drop_last());
        assert((a + b).drop_last() =~= a + b.drop_last());
        assert(body_comps(a + b) =~= body_comps(a) + body_comps(b));
    }
}

proof fn lemma_body_identity(ns: Seq<Seq<char>>)
    requires
        forall|i: int| 0 <= i < ns.len() ==> (#[trigger] ns[i]).len() > 0 && ns[i] != dot(),
    ensures
        body_comps(ns) == ns,
    decreases ns.len(),
{
    if ns.len() > 0 {
        let init = ns.drop_last();
        assert forall|i: int| 0 <= i < init.len() implies (#[trigger] init[i]).len() > 0 && init[i] != dot() by {
            assert(init[i] == ns[i]);
        }
        lemma_body_identity(init);
        assert(ns[ns.len() - 1].len() > 0);
        assert(body_comps(ns) =~= ns);
    }
}

/// A plain name: non-empty, without separator, neither `.` nor `..`.
pub open spec fn plain_name(w: Seq<char>) -> bool {
    &&& w.len() > 0
    &&& no_sep(w)
    &&& w != dot()
    &&& w != dot_dot()
}

/// The empty path has no components.
pub proof fn lemma_comps_empty()
    ensures
        comps(Seq::<char>::empty()) == Seq::<Seq<char>>::empty(),
{
    let e = Seq::<char>::empty();
    assert(split_sep(e) == seq![Seq::<char>::empty()]);
    lemma_body_single_empty();
    assert(split_sep(e)[0] != dot()) by {
        assert(split_sep(e)[0].len() == 0);
    }
    assert(comps(e) =~= Seq::<Seq<char>>::empty());
}

/// Joining a plain name onto a path adds exactly that component.
pub proof fn lemma_join_plain_name(dir: Seq<char>, w: Seq<char>)
    requires
        plain_name(w),
    ensures
        comps(join_text(dir, w)) == comps(dir).push(w),
{
    lemma_split_word(w);
    assert(!is_absolute(w)) by {
        assert(w[0] != '/');
    }
    let one = seq![w];
    assert(body_comps(one) == seq![w]) by {
        assert(one.drop_last() =~= Seq::<Seq<char>>::empty());
        assert(body_comps(one.drop_last()) == Seq::<Seq<char>>::empty());
        assert(one.last() == w);
        assert(Seq::<Seq<char>>::empty().push(w) =~= seq![w]);
    }
    if dir.len() == 0 {
        assert(join_text(dir, w) == w);
        assert(split_sep(dir) == seq![Seq::<char>::empty()]);
        lemma_body_single_empty();
        assert(!is_absolute(dir));
        assert(split_sep(dir)[0] != dot()) by {
            assert(split_sep(dir)[0].len() == 0);
        }
        assert(comps(dir) =~= Seq::<Seq<char>>::empty());
        assert(comps(w) =~= seq![w]);
    } else {
        // the pieces before the name, and how the folder's own pieces relate to them
        let a = if dir.last() == '/' { dir.drop_last() } else { dir };
        let j = join_text(dir, w);
        assert(j =~= a + seq!['/'] + w);
        lemma_split_concat(a, w);
        let pa = split_sep(a);
        lemma_split_sep_nonempty(a);
        let q = split_sep(j);
        assert(q =~= pa + one);
        let pd = split_sep(dir);
        lemma_body_concat(pa, one);
        if dir.last() == '/' {
            assert(dir =~= a + seq!['/'] + Seq::<char>::empty());
            lemma_split_concat(a, Seq::<char>::empty());
            assert(pd =~= pa + seq![Seq::<char>::empty()]);
            lemma_body_concat(pa, seq![Seq::<char>::empty()]);
            lemma_body_single_empty();
            assert(body_comps(pd) =~= body_comps(pa));
            lemma_body_concat(pa.drop_first(), seq![Seq::<char>::empty()]);
            assert(pd.drop_first() =~= pa.drop_first() + seq![Seq::<char>::empty()]);
            assert(body_comps(pd.drop_first()) =~= body_comps(pa.drop_first()));
        } else {
            assert(pd == pa);
        }
        assert(pd[0] == pa[0]);
        assert(is_absolute(j) == is_absolute(dir)) by {
            assert(j[0] == dir[0]);
        }
        assert(q[0] == pa[0]);
        assert(q.drop_first() =~= pa.drop_first() + one);
        lemma_body_concat(pa.drop_first(), one);
        assert(comps(j) =~= comps(dir).push(w));
    }
}

/// Parsing the text of a valid component sequence gives it back.
pub proof fn lemma_comps_render(c: Seq<Seq<char>>)
    requires
        valid_comps(c),
    ensures
        comps(render(c)) == c,
{
    let empty = Seq::<char>::empty();
    if c.len() > 0 && c[0] == root_comp() {
        let names = c.drop_first();
        assert forall|i: int| 0 <= i < names.len() implies no_sep(#[trigger] names[i]) by {
            assert(names[i] == c[i + 1]);
        }
        assert forall|i: int| 0 <= i < names.len() implies (#[trigger] names[i]).len() > 0 && names[i]
            != dot() by {
            assert(names[i] == c[i + 1]);
        }
        lemma_body_identity(names);
        let s = render(c);
        assert(s == seq!['/'] + join_names(names));
        assert(s =~= empty + seq!['/'] + join_names(names));
        lemma_split_concat(empty, join_names(names));
        lemma_split_word(empty);
        if names.len() == 0 {
            assert(join_names(names) =~= empty);
            lemma_body_concat(split_sep(empty), split_sep(empty));
            lemma_body_single_empty();
            assert(comps(s) =~= c);
        } else {
            lemma_split_join(names);
            lemma_body_concat(seq![empty], names);
            lemma_body_single_empty();
            assert(comps(s) =~= c);
        }
    } else if c.len() == 0 {
        assert(render(c) =~= empty);
        lemma_split_word(empty);
        lemma_body_single_empty();
        assert(comps(render(c)) =~= c);
    } else {
        assert forall|i: int| 0 <= i < c.len() implies no_sep(#[trigger] c[i]) by {}
        lemma_split_join(c);
        let s = render(c);
        assert(s == join_names(c));
        assert(no_sep(c[0]));
        if c[0] == dot() {
            let rest = c.drop_first();
            assert forall|i: int| 0 <= i < rest.len() implies (#[trigger] rest[i]).len() > 0 && rest[i]
                != dot() by {
                assert(rest[i] == c[i + 1]);
            }
            lemma_body_identity(rest);
            assert(split_sep(s).drop_first() =~= rest);
            assert(!is_absolute(s)) by {
                lemma_join_first(c);
            }
            assert(comps(s) =~= c);
        } else {
            assert forall|i: int| 0 <= i < c.len() implies (#[trigger] c[i]).len() > 0 && c[i] != dot() by {}
            lemma_body_identity(c);
            assert(!is_absolute(s)) by {
                lemma_join_first(c);
            }
            assert(comps(s) =~= c);
        }
    }
}

proof fn lemma_body_single_empty()
    ensures
        body_comps(seq![Seq::<char>::empty()]) == Seq::<Seq<char>>::empty(),
{
    let one = seq![Seq::<char>::empty()];
    assert(one.drop_last() =~= Seq::<Seq<char>>::empty());
    assert(body_comps(Seq::<Seq<char>>::empty()) == Seq::<Seq<char>>::empty());
    assert(one.last().len() == 0);
}

proof fn lemma_join_first(ns: Seq<Seq<char>>)
    requires
        ns.len() >= 1,
        ns[0].len() > 0,
    ensures
        join_names(ns).len() > 0,
        join_names(ns)[0] == ns[0][0],
    decreases ns.len(),
{
    if ns.len() > 1 {
        lemma_join_first(ns.drop_last());
    }
}

proof fn lemma_split_pieces_no_sep(s: Seq<char>)
    ensures
        forall|i: int| 0 <= i < split_sep(s).len() ==> no_sep(#[trigger] split_sep(s)[i]),
    decreases s.len(),
{
    lemma_split_sep_nonempty(s);
    if s.len() > 0 {
        lemma_split_pieces_no_sep(s.drop_last());
        lemma_split_sep_nonempty(s.drop_last());
        let r = split_sep(s.drop_last());
        assert forall|i: int| 0 <= i < split_sep(s).len() implies no_sep(#[trigger] split_sep(s)[i]) by {
            if s.last() != '/' && i == r.len() - 1 {
                assert(no_sep(r[i]));
                assert forall|k: int| 0 <= k < split_sep(s)[i].len() implies split_sep(s)[i][k] != '/' by {
                    if k < r[i].len() {
                        assert(split_sep(s)[i][k] == r[i][k]);
                    }
                }
            } else if i < r.len() {
                assert(split_sep(s)[i] == r[i]);
            }
        }
    }
}

proof fn lemma_body_clean(p: Seq<Seq<char>>)
    requires
        forall|i: int| 0 <= i < p.len() ==> no_sep(#[trigger] p[i]),
    ensures
        forall|i: int| 0 <= i < body_comps(p).len() ==> {
            &&& no_sep(#[trigger] body_comps(p)[i])
            &&& body_comps(p)[i].len() > 0
            &&& body_comps(p)[i] != dot()
        },
    decreases p.len(),
{
    if p.len() > 0 {
        let init = p.drop_last();
        assert forall|i: int| 0 <= i < init.len() implies no_sep(#[trigger] init[i]) by {
            assert(init[i] == p[i]);
        }
        lemma_body_clean(init);
        assert(no_sep(p[p.len() - 1]));
        let b = body_comps(init);
        assert forall|i: int| 0 <= i < body_comps(p).len() implies {
            &&& no_sep(#[trigger] body_comps(p)[i])
            &&& body_comps(p)[i].len() > 0
            &&& body_comps(p)[i] != dot()
        } by {
            if i < b.len() {
                assert(body_comps(p)[i] == b[i]);
            }
        }
    }
}

/// What `comps` produces is a valid component sequence.
pub proof fn lemma_comps_valid(s: Seq<char>)
    ensures
        valid_comps(comps(s)),
{
    let pieces = split_sep(s);
    lemma_split_sep_nonempty(s);
    lemma_split_pieces_no_sep(s);
    lemma_body_clean(pieces);
    let rest = pieces.drop_first();
    assert forall|i: int| 0 <= i < rest.len() implies no_sep(#[trigger] rest[i]) by {
        assert(rest[i] == pieces[i + 1]);
    }
    lemma_body_clean(rest);
    let c = comps(s);
    if is_absolute(s) {
        let b = body_comps(pieces);
        assert forall|i: int| 1 <= i < c.len() implies c[i] == b[i - 1] by {}
    } else if pieces[0] == dot() {
        let b = body_comps(rest);
        assert forall|i: int| 1 <= i < c.len() implies c[i] == b[i - 1] by {}
        assert(no_sep(dot()));
    }
}

proof fn lemma_norm_fold_normal(c: Seq<Seq<char>>)
    requires
        valid_comps(c),
    ensures
        normal_comps(norm_fold(c)),
        norm_fold(c).len() <= c.len(),
        forall|i: int| 1 <= i < norm_fold(c).len() ==> #[trigger] norm_fold(c)[i] != root_comp(),
        norm_fold(c).len() > 0 && norm_fold(c)[0] == root_comp() ==> c.len() > 0 && c[0] == root_comp(),
    decreases c.len(),
{
    if c.len() > 0 {
        let init = c.drop_last();
        assert forall|i: int| 0 <= i < init.len() implies init[i] == c[i] by {}
        lemma_norm_fold_normal(init);
        let st = norm_fold(init);
        let x = c.last();
        assert(x.len() > 0);
        if c.len() > 1 {
            assert(x != root_comp() ==> no_sep(x));
            assert(x != dot());
            if x == root_comp() {
                // a root after the first component would carry a separator
                assert(x[0] == '/');
                assert(!no_sep(x));
                assert(false);
            }
        }
        if x != dot() && x != dot_dot() {
            assert(norm_fold(c) =~= st.push(x));
        }
    }
}

proof fn lemma_norm_fold_identity(c: Seq<Seq<char>>)
    requires
        normal_comps(c),
        forall|i: int| 1 <= i < c.len() ==> #[trigger] c[i] != root_comp(),
    ensures
        norm_fold(c) == c,
    decreases c.len(),
{
    if c.len() > 0 {
        let init = c.drop_last();
        assert forall|i: int| 0 <= i < init.len() implies init[i] == c[i] by {}
        lemma_norm_fold_identity(init);
        assert(norm_fold(c) =~= c);
    }
}

/// Normalizing a normalized path changes nothing.
pub proof fn lemma_normalized_idempotent(s: Seq<char>)
    ensures
        normalized(normalized(s)) == normalized(s),
        comps(normalized(s)) == norm_fold(comps(s)),
{
    lemma_comps_valid(s);
    let n = norm_fold(comps(s));
    lemma_norm_fold_normal(comps(s));
    lemma_comps_render(n);
    lemma_norm_fold_identity(n);
}


/// A path whose components hold no `.` or `..` keeps its components when
/// normalized.
pub proof fn lemma_normal_path_fixed(s: Seq<char>)
    requires
        normal_comps(comps(s)),
    ensures
        comps(normalized(s)) == comps(s),
{
    lemma_normalized_idempotent(s);
    let c = comps(s);
    assert forall|i: int| 1 <= i < c.len() implies #[trigger] c[i] != root_comp() by {
        assert(no_sep(c[i]));
        assert(root_comp()[0] == '/');
    }
    lemma_norm_fold_identity(c);
}

/// Normalizing twice is normalizing once.
pub proof fn law_normalize_idempotent(s: Seq<char>)
    ensures
        normalized(normalized(s)) == normalized(s),
{
    lemma_normalized_idempotent(s);
}

/// A normalized path has no `.` or `..` component left, and keeps the root of
/// an absolute path.
pub proof fn law_normalized_without_dot_segments(s: Seq<char>)
    ensures
        forall|i: int| 0 <= i < comps(normalized(s)).len() ==> #[trigger] comps(normalized(s))[i] != dot()
            && comps(normalized(s))[i] != dot_dot(),
        is_absolute(s) ==> comps(normalized(s)).len() > 0 && comps(normalized(s))[0] == root_comp(),
{
    lemma_normalized_idempotent(s);
    lemma_comps_valid(s);
    lemma_norm_fold_normal(comps(s));
    if is_absolute(s) {
        lemma_norm_fold_keeps_root(comps(s));
    }
}

proof fn lemma_norm_fold_keeps_root(c: Seq<Seq<char>>)
    requires
        c.len() > 0,
        c[0] == root_comp(),
    ensures
        norm_fold(c).len() > 0,
        norm_fold(c)[0] == root_comp(),
    decreases c.len(),
{
    let init = c.drop_last();
    let x = c.last();
    if c.len() == 1 {
        assert(init.len() == 0);
        assert(norm_fold(init) == Seq::<Seq<char>>::empty());
        assert(x == root_comp());
        assert(root_comp() != dot()) by {
            assert(root_comp()[0] != dot()[0]);
        }
        assert(root_comp() != dot_dot()) by {
            assert(root_comp().len() != dot_dot().len());
        }
        assert(norm_fold(c) == norm_step(norm_fold(init), x));
        assert(norm_fold(c) =~= seq![root_comp()]);
    } else {
        assert(init[0] == c[0]);
        lemma_norm_fold_keeps_root(init);
        let st = norm_fold(init);
        assert(norm_fold(c) == norm_step(st, x));
        if x == dot() {
        } else if x == dot_dot() {
            if !(st.len() == 1 && st[0] == root_comp()) {
                assert(st.drop_last()[0] == st[0]);
            }
        } else {
            assert(st.push(x)[0] == st[0]);
        }
    }
}

proof fn lemma_dedup_distinct(paths: Seq<Seq<char>>)
    ensures
        forall|i: int, j: int|
            0 <= i < j < dedup_normalized(paths).len() ==> unicode_lowercase(
                #[trigger] dedup_normalized(paths)[i],
            ) != unicode_lowercase(#[trigger] dedup_normalized(paths)[j]),
    decreases paths.len(),
{
    if paths.len() > 0 {
        let init = paths.drop_last();
        lemma_dedup_distinct(init);
        let r = dedup_normalized(init);
        let out = dedup_normalized(paths);
        assert forall|i: int, j: int| 0 <= i < j < out.len() implies unicode_lowercase(#[trigger] out[i])
            != unicode_lowercase(#[trigger] out[j]) by {
            assert(out[i] == r[i]);
            if j < r.len() {
                assert(out[j] == r[j]);
            }
        }
    }
}

proof fn lemma_dedup_from_inputs(paths: Seq<Seq<char>>)
    ensures
        forall|k: int|
            0 <= k < dedup_normalized(paths).len() ==> exists|m: int|
                0 <= m < paths.len() && #[trigger] dedup_normalized(paths)[k] == normalized(paths[m]),
    decreases paths.len(),
{
    if paths.len() > 0 {
        let init = paths.drop_last();
        lemma_dedup_from_inputs(init);
        let r = dedup_normalized(init);
        let out = dedup_normalized(paths);
        assert forall|k: int| 0 <= k < out.len() implies exists|m: int| 0 <= m < paths.len() && #[trigger] out[k]
            == normalized(paths[m]) by {
            if k < r.len() {
                let m = choose|m: int| 0 <= m < init.len() && r[k] == normalized(init[m]);
                assert(paths[m] == init[m]);
                assert(out[k] == r[k]);
            } else {
                assert(out[k] == normalized(paths[paths.len() - 1]));
            }
        }
    }
}

proof fn lemma_dedup_covers(paths: Seq<Seq<char>>)
    ensures
        forall|m: int|
            #![trigger paths[m]]
            0 <= m < paths.len() ==> exists|k: int|
                0 <= k < dedup_normalized(paths).len() && unicode_lowercase(
                    #[trigger] dedup_normalized(paths)[k],
                ) == unicode_lowercase(normalized(paths[m])),
    decreases paths.len(),
{
    if paths.len() > 0 {
        let init = paths.drop_last();
        lemma_dedup_covers(init);
        let r = dedup_normalized(init);
        let out = dedup_normalized(paths);
        let n = normalized(paths.last());
        assert forall|m: int| #![trigger paths[m]] 0 <= m < paths.len() implies exists|k: int|
            0 <= k < out.len() && unicode_lowercase(#[trigger] out[k]) == unicode_lowercase(
                normalized(paths[m]),
            ) by {
            if m < init.len() {
                assert(paths[m] == init[m]);
                let k = choose|k: int| 0 <= k < r.len() && unicode_lowercase(#[trigger] r[k]) == unicode_lowercase(
                    normalized(init[m]),
                );
                assert(out[k] == r[k]);
            } else {
                if exists|k: int| 0 <= k < r.len() && unicode_lowercase(#[trigger] r[k]) == unicode_lowercase(n) {
                    let k = choose|k: int| 0 <= k < r.len() && unicode_lowercase(#[trigger] r[k])
                        == unicode_lowercase(n);
                    assert(out[k] == r[k]);
                } else {
                    assert(out[r.len() as int] == n);
                }
            }
        }
    }
}

/// No two de-duplicated paths share a lowercase text; each is the
/// normalization of an input path; and every input path is represented by a
/// path of the same lowercase normalized text.
pub proof fn law_dedup_paths(paths: Seq<Seq<char>>)
    ensures
        forall|i: int, j: int|
            0 <= i < j < dedup_normalized(paths).len() ==> unicode_lowercase(
                #[trigger] dedup_normalized(paths)[i],
            ) != unicode_lowercase(#[trigger] dedup_normalized(paths)[j]),
        forall|k: int|
            0 <= k < dedup_normalized(paths).len() ==> exists|m: int|
                0 <= m < paths.len() && #[trigger] dedup_normalized(paths)[k] == normalized(paths[m]),
        forall|m: int|
            #![trigger paths[m]]
            0 <= m < paths.len() ==> exists|k: int|
                0 <= k < dedup_normalized(paths).len() && unicode_lowercase(
                    #[trigger] dedup_normalized(paths)[k],
                ) == unicode_lowercase(normalized(paths[m])),
{
    lemma_dedup_distinct(paths);
    lemma_dedup_from_inputs(paths);
    lemma_dedup_covers(paths);
}

/// De-duplicating an already de-duplicated list changes nothing.
pub proof fn law_dedup_idempotent(paths: Seq<Seq<char>>)
    ensures
        dedup_normalized(dedup_normalized(paths)) == dedup_normalized(paths),
{
    let q = dedup_normalized(paths);
    law_dedup_paths(paths);
    assert forall|k: int| 0 <= k < q.len() implies normalized(#[trigger] q[k]) == q[k] by {
        let m = choose|m: int| 0 <= m < paths.len() && q[k] == normalized(paths[m]);
        lemma_normalized_idempotent(paths[m]);
    }
    lemma_dedup_fixed(q);
}

proof fn lemma_dedup_fixed(q: Seq<Seq<char>>)
    requires
        forall|k: int| 0 <= k < q.len() ==> normalized(#[trigger] q[k]) == q[k],
        forall|i: int, j: int|
            0 <= i < j < q.len() ==> unicode_lowercase(#[trigger] q[i]) != unicode_lowercase(#[trigger] q[j]),
    ensures
        dedup_normalized(q) == q,
    decreases q.len(),
{
    if q.len() > 0 {
        let init = q.drop_last();
        assert forall|k: int| 0 <= k < init.len() implies normalized(#[trigger] init[k]) == init[k] by {
            assert(init[k] == q[k]);
        }
        assert forall|i: int, j: int| 0 <= i < j < init.len() implies unicode_lowercase(#[trigger] init[i])
            != unicode_lowercase(#[trigger] init[j]) by {
            assert(init[i] == q[i]);
            assert(init[j] == q[j]);
        }
        lemma_dedup_fixed(init);
        let last = q[q.len() - 1];
        assert(normalized(last) == last);
        assert forall|k: int| 0 <= k < init.len() implies unicode_lowercase(#[trigger] init[k]) != unicode_lowercase(
            last,
        ) by {
            assert(init[k] == q[k]);
        }
        assert(dedup_normalized(q) =~= q);
    }
}


/// The parent's components are the path's components without the last one.
pub proof fn lemma_parent_comps(s: Seq<char>)
    ensures
        parent_of(s) matches Some(p) ==> comps(p) == comps(s).drop_last(),
{
    if parent_of(s) is Some {
        lemma_comps_valid(s);
        let c = comps(s);
        let d = c.drop_last();
        assert forall|i: int| 0 <= i < d.len() implies d[i] == c[i] by {}
        assert(valid_comps(d));
        lemma_comps_render(d);
    }
}

/// `Path::strip_prefix` on text: the components after those of `base`,
/// rendered, when `base`'s components are a prefix of `path`'s.
pub open spec fn strip_prefix_text(path: Seq<char>, base: Seq<char>) -> Option<Seq<char>> {
    let c = comps(path);
    let b = comps(base);
    if comps_prefix(b, c) {
        Some(render(c.subrange(b.len() as int, c.len() as int)))
    } else {
        None
    }
}

/// `Path::strip_prefix`.
pub fn strip_prefix(path: &str, base: &str) -> (r: Option<String>)
    ensures
        r matches Some(t) ==> strip_prefix_text(path@, base@) == Some(t@),
        r is None ==> strip_prefix_text(path@, base@) is None,
{
    let c = components(path);
    let b = components(base);
    if !comps_prefix_exec(&b, &c) {
        return None;
    }
    let mut rest: Vec<Vec<char>> = Vec::new();
    let n = c.len();
    let start = b.len();
    for i in start..n
        invariant
            n == c@.len(),
            start == b@.len(),
            start <= i <= n,
            texts(rest@) == texts(c@).subrange(start as int, i as int),
    {
        let piece = subrange_vec(&c[i], 0, c[i].len());
        assert(piece@ == c@[i as int]@);
        let ghost before = rest@;
        rest.push(piece);
        assert(rest@ == before.push(piece));
        assert(texts(rest@) =~= texts(before).push(piece@));
        assert(texts(rest@) =~= texts(c@).subrange(start as int, i + 1));
    }
    let out = render_components(&rest);
    Some(out)
}

} // verus!
