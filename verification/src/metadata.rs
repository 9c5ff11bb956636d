//! The metadata reader. A package's name and version come from an INI-like
//! text: lines separated by line feeds (an optional carriage return before
//! each line feed is ignored), blank lines, comment lines opening with `;`
//! or `#`, section headers `[label]`, and `key=value` bindings. Bindings
//! count while the scan is in scope: before any section header, or inside a
//! section labelled `rmskin`; the first binding of a key wins. A key that
//! never binds falls back to its documented default. Any other line makes
//! the whole text malformed.

use vstd::prelude::*;
use crate::errors::BuildError;

verus! {

/// The resolved metadata of a package: its name and its version.
#[derive(Debug, PartialEq, Eq)]
pub struct PackageMetadata {
    /// The package's name.
    pub name: Vec<u8>,
    /// The package's version.
    pub version: Vec<u8>,
}

/// The key whose binding names the package: `Name`.
pub open spec fn name_key() -> Seq<u8> {
    seq![78u8, 97u8, 109u8, 101u8]
}

/// The key whose binding gives the package's version: `Version`.
pub open spec fn version_key() -> Seq<u8> {
    seq![86u8, 101u8, 114u8, 115u8, 105u8, 111u8, 110u8]
}

/// The section label whose bindings count: `rmskin`.
pub open spec fn section_label() -> Seq<u8> {
    seq![114u8, 109u8, 115u8, 107u8, 105u8, 110u8]
}

/// The name used when the text binds none: `DefaultName`.
pub open spec fn default_name() -> Seq<u8> {
    seq![68u8, 101u8, 102u8, 97u8, 117u8, 108u8, 116u8, 78u8, 97u8, 109u8, 101u8]
}

/// The version used when the text binds none: `1.0`.
pub open spec fn default_version() -> Seq<u8> {
    seq![49u8, 46u8, 48u8]
}

/// A raw line without its trailing carriage return, if it carried one.
pub open spec fn logical_line(l: Seq<u8>) -> Seq<u8> {
    if l.len() > 0 && l.last() == 13u8 {
        l.drop_last()
    } else {
        l
    }
}

/// The position of the first `=` in a line, or a negative number if it
/// holds none.
pub open spec fn find_eq(t: Seq<u8>) -> int
    decreases t.len(),
{
    if t.len() == 0 {
        -1
    } else if t[0] == 61u8 {
        0
    } else if find_eq(t.drop_first()) < 0 {
        -1
    } else {
        1 + find_eq(t.drop_first())
    }
}

/// A line with nothing on it.
pub open spec fn is_blank(t: Seq<u8>) -> bool {
    t.len() == 0
}

/// A comment line: it opens with `;` or `#`.
pub open spec fn is_comment(t: Seq<u8>) -> bool {
    t.len() > 0 && (t[0] == 59u8 || t[0] == 35u8)
}

/// A well-formed section header: `[` ... `]`.
pub open spec fn is_section_line(t: Seq<u8>) -> bool {
    t.len() >= 2 && t[0] == 91u8 && t.last() == 93u8
}

/// The label between a section header's brackets.
pub open spec fn section_name(t: Seq<u8>) -> Seq<u8> {
    t.subrange(1, t.len() - 1)
}

/// A well-formed binding: a non-empty key, `=`, and the rest of the line.
pub open spec fn is_kv_line(t: Seq<u8>) -> bool {
    t.len() > 0 && t[0] != 91u8 && !is_comment(t) && find_eq(t) >= 1
}

/// A binding's key: everything before the first `=`.
pub open spec fn kv_key(t: Seq<u8>) -> Seq<u8> {
    t.subrange(0, find_eq(t))
}

/// A binding's value: everything after the first `=`.
pub open spec fn kv_value(t: Seq<u8>) -> Seq<u8> {
    t.subrange(find_eq(t) + 1, t.len() as int)
}

/// A line the syntax accepts.
pub open spec fn line_ok(t: Seq<u8>) -> bool {
    ||| is_blank(t)
    ||| is_comment(t)
    ||| (t[0] == 91u8 && is_section_line(t))
    ||| is_kv_line(t)
}

/// Whether bindings count after this line: a section header puts the scan in
/// scope exactly when its label is the recognized one; any other line leaves
/// the scope alone.
pub open spec fn line_scope(t: Seq<u8>, in_scope: bool) -> bool {
    if is_section_line(t) {
        section_name(t) == section_label()
    } else {
        in_scope
    }
}

/// What a key is bound to after this line: the line's value if the line is a
/// binding of this key, in scope, and the key was still unbound; otherwise
/// whatever it was bound to before.
pub open spec fn line_binding(
    t: Seq<u8>,
    in_scope: bool,
    key: Seq<u8>,
    prev: Option<Seq<u8>>,
) -> Option<Seq<u8>> {
    if is_kv_line(t) && in_scope && prev is None && kv_key(t) == key {
        Some(kv_value(t))
    } else {
        prev
    }
}

/// The scan's state: the bytes of the line being read, whether bindings
/// count, whether every finished line was well formed, and what the two
/// keys are bound to.
pub struct MetaScan {
    /// The bytes of the unfinished line.
    pub cur: Seq<u8>,
    /// Whether bindings count here.
    pub in_scope: bool,
    /// Whether every line so far was well formed.
    pub ok: bool,
    /// What `Name` is bound to.
    pub name: Option<Seq<u8>>,
    /// What `Version` is bound to.
    pub version: Option<Seq<u8>>,
}

/// The scan's state before any byte: an empty line, in scope, well formed,
/// nothing bound.
pub open spec fn scan_init() -> MetaScan {
    MetaScan { cur: Seq::empty(), in_scope: true, ok: true, name: None, version: None }
}

/// Finishing the current line: it is classified, the scope and the bindings
/// move, and a fresh line begins.
pub open spec fn end_line(st: MetaScan) -> MetaScan {
    let t = logical_line(st.cur);
    MetaScan {
        cur: Seq::empty(),
        in_scope: line_scope(t, st.in_scope),
        ok: st.ok && line_ok(t),
        name: line_binding(t, st.in_scope, name_key(), st.name),
        version: line_binding(t, st.in_scope, version_key(), st.version),
    }
}

/// One byte of input: a line feed finishes the line, anything else joins it.
pub open spec fn scan_byte(st: MetaScan, b: u8) -> MetaScan {
    if b == 10u8 {
        end_line(st)
    } else {
        MetaScan { cur: st.cur.push(b), ..st }
    }
}

/// The scan's state after reading all of `s`.
pub open spec fn scan_bytes(s: Seq<u8>, st: MetaScan) -> MetaScan
    decreases s.len(),
{
    if s.len() == 0 {
        st
    } else {
        scan_bytes(s.drop_first(), scan_byte(st, s[0]))
    }
}

/// The scan of a whole text: every byte, then the final, unterminated line.
pub open spec fn scan_all(s: Seq<u8>) -> MetaScan {
    end_line(scan_bytes(s, scan_init()))
}

/// A text the syntax accepts in full.
pub open spec fn metadata_wf(s: Seq<u8>) -> bool {
    scan_all(s).ok
}

/// The name the text resolves to: what `Name` is bound to, or the default.
pub open spec fn resolved_name(s: Seq<u8>) -> Seq<u8> {
    match scan_all(s).name {
        Some(v) => v,
        None => default_name(),
    }
}

/// The version the text resolves to: what `Version` is bound to, or the
/// default.
pub open spec fn resolved_version(s: Seq<u8>) -> Seq<u8> {
    match scan_all(s).version {
        Some(v) => v,
        None => default_version(),
    }
}

/// Default substitution: a text that never binds `Version` resolves to the
/// documented default version, whatever else it binds.
pub proof fn lemma_default_version(s: Seq<u8>)
    requires
        scan_all(s).version is None,
    ensures
        resolved_version(s) == default_version(),
{
}

/// Default substitution for the name: a text that never binds `Name`
/// resolves to the documented default name.
pub proof fn lemma_default_name(s: Seq<u8>)
    requires
        scan_all(s).name is None,
    ensures
        resolved_name(s) == default_name(),
{
}

/// Reading one more byte is one more step of the scan.
proof fn lemma_scan_snoc(s: Seq<u8>, b: u8, st: MetaScan)
    ensures
        scan_bytes(s.push(b), st) == scan_byte(scan_bytes(s, st), b),
    decreases s.len(),
{
    assert(s.push(b)[0] == if s.len() == 0 { b } else { s[0] });
    if s.len() == 0 {
        assert(s.push(b).drop_first() =~= Seq::<u8>::empty());
    } else {
        assert(s.push(b).drop_first() =~= s.drop_first().push(b));
        lemma_scan_snoc(s.drop_first(), b, scan_byte(st, s[0]));
    }
}

/// An `=` with no `=` before it is the one `find_eq` finds.
proof fn lemma_find_eq_at(t: Seq<u8>, j: int)
    requires
        0 <= j < t.len(),
        t[j] == 61u8,
        forall|k: int| 0 <= k < j ==> t[k] != 61u8,
    ensures
        find_eq(t) == j,
    decreases j,
{
    if j > 0 {
        lemma_find_eq_at(t.drop_first(), j - 1);
    }
}

/// A line with no `=` has no binding.
proof fn lemma_find_eq_none(t: Seq<u8>)
    requires
        forall|k: int| 0 <= k < t.len() ==> t[k] != 61u8,
    ensures
        find_eq(t) < 0,
    decreases t.len(),
{
    if t.len() > 0 {
        lemma_find_eq_none(t.drop_first());
    }
}

/// The spec-level shape of an optional byte string held in exec code.
pub open spec fn opt_view(e: Option<Vec<u8>>) -> Option<Seq<u8>> {
    match e {
        Some(v) => Some(v@),
        None => None,
    }
}

/// The bytes of `Name`.
fn name_key_vec() -> (r: Vec<u8>)
    ensures
        r@ == name_key(),
{
    let mut v: Vec<u8> = Vec::new();
    v.push(78);
    v.push(97);
    v.push(109);
    v.push(101);
    proof {
        assert(v@ =~= name_key());
    }
    v
}

/// The bytes of `Version`.
fn version_key_vec() -> (r: Vec<u8>)
    ensures
        r@ == version_key(),
{
    let mut v: Vec<u8> = Vec::new();
    v.push(86);
    v.push(101);
    v.push(114);
    v.push(115);
    v.push(105);
    v.push(111);
    v.push(110);
    proof {
        assert(v@ =~= version_key());
    }
    v
}

/// The bytes of `rmskin`.
fn section_label_vec() -> (r: Vec<u8>)
    ensures
        r@ == section_label(),
{
    let mut v: Vec<u8> = Vec::new();
    v.push(114);
    v.push(109);
    v.push(115);
    v.push(107);
    v.push(105);
    v.push(110);
    proof {
        assert(v@ =~= section_label());
    }
    v
}

/// The bytes of `DefaultName`.
fn default_name_vec() -> (r: Vec<u8>)
    ensures
        r@ == default_name(),
{
    let mut v: Vec<u8> = Vec::new();
    v.push(68);
    v.push(101);
    v.push(102);
    v.push(97);
    v.push(117);
    v.push(108);
    v.push(116);
    v.push(78);
    v.push(97);
    v.push(109);
    v.push(101);
    proof {
        assert(v@ =~= default_name());
    }
    v
}

/// The bytes of `1.0`.
fn default_version_vec() -> (r: Vec<u8>)
    ensures
        r@ == default_version(),
{
    let mut v: Vec<u8> = Vec::new();
    v.push(49);
    v.push(46);
    v.push(48);
    proof {
        assert(v@ =~= default_version());
    }
    v
}

/// Whether the bytes of `a` between `start` and `end` are exactly `pat`.
fn range_eq(a: &Vec<u8>, start: usize, end: usize, pat: &Vec<u8>) -> (r: bool)
    requires
        start <= end,
        end <= a@.len(),
    ensures
        r == (a@.subrange(start as int, end as int) == pat@),
{
    if end - start != pat.len() {
        return false;
    }
    let mut k: usize = 0;
    while k < pat.len()
        invariant
            end - start == pat@.len(),
            start <= end <= a@.len(),
            k <= pat@.len(),
            forall|m: int| 0 <= m < k ==> a@[start + m] == pat@[m],
        decreases pat@.len() - k,
    {
        if a[start + k] != pat[k] {
            proof {
                assert(a@.subrange(start as int, end as int)[k as int] == a@[start + k]);
            }
            return false;
        }
        k = k + 1;
    }
    proof {
        assert(a@.subrange(start as int, end as int) =~= pat@);
    }
    true
}

/// A copy of the bytes of `a` between `start` and `end`.
fn copy_range(a: &Vec<u8>, start: usize, end: usize) -> (r: Vec<u8>)
    requires
        start <= end,
        end <= a@.len(),
    ensures
        r@ == a@.subrange(start as int, end as int),
{
    let mut out: Vec<u8> = Vec::new();
    let mut k: usize = start;
    while k < end
        invariant
            start <= k <= end <= a@.len(),
            out@ =~= a@.subrange(start as int, k as int),
        decreases end - k,
    {
        out.push(a[k]);
        k = k + 1;
        proof {
            assert(out@ =~= a@.subrange(start as int, k as int));
        }
    }
    out
}

/// The position of the first `=` among the first `tlen` bytes, or `tlen`
/// if there is none.
fn find_eq_pos(line: &Vec<u8>, tlen: usize) -> (j: usize)
    requires
        tlen <= line@.len(),
    ensures
        j <= tlen,
        j < tlen ==> line@[j as int] == 61u8 && (forall|k: int| 0 <= k < j ==> line@[k] != 61u8),
        j == tlen ==> forall|k: int| 0 <= k < tlen ==> line@[k] != 61u8,
{
    let mut j: usize = 0;
    while j < tlen
        invariant
            j <= tlen <= line@.len(),
            forall|k: int| 0 <= k < j ==> line@[k] != 61u8,
        decreases tlen - j,
    {
        if line[j] == 61 {
            return j;
        }
        j = j + 1;
    }
    j
}

/// Finishes one raw line: classifies it and moves the scope, the
/// well-formedness flag and the two bindings, exactly as `end_line` does.
fn process_line(
    line: &Vec<u8>,
    in_scope: bool,
    ok: bool,
    name: Option<Vec<u8>>,
    version: Option<Vec<u8>>,
) -> (r: (bool, bool, Option<Vec<u8>>, Option<Vec<u8>>))
    ensures
        ({
            let t = logical_line(line@);
            &&& r.0 == line_scope(t, in_scope)
            &&& r.1 == (ok && line_ok(t))
            &&& opt_view(r.2) == line_binding(t, in_scope, name_key(), opt_view(name))
            &&& opt_view(r.3) == line_binding(t, in_scope, version_key(), opt_view(version))
        }),
{
    let ghost t = logical_line(line@);
    let mut tlen: usize = line.len();
    if tlen > 0 && line[tlen - 1] == 13 {
        tlen = tlen - 1;
    }
    proof {
        assert(t =~= line@.subrange(0, tlen as int));
    }
    if tlen == 0 {
        return (in_scope, ok, name, version);
    }
    let b0 = line[0];
    if b0 == 59 || b0 == 35 {
        return (in_scope, ok, name, version);
    }
    if b0 == 91 {
        if tlen >= 2 && line[tlen - 1] == 93 {
            let label = section_label_vec();
            let hit = range_eq(line, 1, tlen - 1, &label);
            proof {
                assert(section_name(t) =~= line@.subrange(1, tlen as int - 1));
            }
            return (hit, ok, name, version);
        } else {
            return (in_scope, false, name, version);
        }
    }
    let j = find_eq_pos(line, tlen);
    if j == tlen {
        proof {
            assert(forall|k: int| 0 <= k < tlen ==> t[k] == line@[k]);
            lemma_find_eq_none(t);
        }
        return (in_scope, false, name, version);
    }
    proof {
        assert(forall|k: int| 0 <= k < tlen ==> t[k] == line@[k]);
        lemma_find_eq_at(t, j as int);
    }
    if j == 0 {
        return (in_scope, false, name, version);
    }
    let mut new_name = name;
    let mut new_version = version;
    if in_scope {
        proof {
            assert(kv_key(t) =~= line@.subrange(0, j as int));
            assert(kv_value(t) =~= line@.subrange(j as int + 1, tlen as int));
        }
        let nk = name_key_vec();
        let vk = version_key_vec();
        if new_name.is_none() && range_eq(line, 0, j, &nk) {
            new_name = Some(copy_range(line, j + 1, tlen));
        }
        if new_version.is_none() && range_eq(line, 0, j, &vk) {
            new_version = Some(copy_range(line, j + 1, tlen));
        }
    }
    (in_scope, ok, new_name, new_version)
}

/// Parses a metadata text. A well-formed text yields the name and version
/// it resolves to, defaults filled in; any malformed line fails the whole
/// text with `MetadataParseError`.
pub fn parse_metadata(text: &Vec<u8>) -> (r: Result<PackageMetadata, BuildError>)
    ensures
        match r {
            Ok(m) => metadata_wf(text@) && m.name@ == resolved_name(text@) && m.version@
                == resolved_version(text@),
            Err(e) => e == BuildError::MetadataParseError && !metadata_wf(text@),
        },
{
    let mut cur: Vec<u8> = Vec::new();
    let mut in_scope: bool = true;
    let mut ok: bool = true;
    let mut name: Option<Vec<u8>> = None;
    let mut version: Option<Vec<u8>> = None;
    let mut i: usize = 0;
    while i < text.len()
        invariant
            i <= text@.len(),
            ({
                let g = scan_bytes(text@.take(i as int), scan_init());
                &&& g.cur == cur@
                &&& g.in_scope == in_scope
                &&& g.ok == ok
                &&& g.name == opt_view(name)
                &&& g.version == opt_view(version)
            }),
        decreases text@.len() - i,
    {
        let b = text[i];
        proof {
            assert(text@.take(i as int + 1) =~= text@.take(i as int).push(text@[i as int]));
            lemma_scan_snoc(text@.take(i as int), text@[i as int], scan_init());
        }
        if b == 10 {
            let finished = cur;
            cur = Vec::new();
            let stepped = process_line(&finished, in_scope, ok, name, version);
            in_scope = stepped.0;
            ok = stepped.1;
            name = stepped.2;
            version = stepped.3;
        } else {
            cur.push(b);
        }
        i = i + 1;
    }
    proof {
        assert(text@.take(i as int) =~= text@);
    }
    let stepped = process_line(&cur, in_scope, ok, name, version);
    if !stepped.1 {
        return Err(BuildError::MetadataParseError);
    }
    let name_v = match stepped.2 {
        Some(v) => v,
        None => default_name_vec(),
    };
    let version_v = match stepped.3 {
        Some(v) => v,
        None => default_version_vec(),
    };
    Ok(PackageMetadata { name: name_v, version: version_v })
}

} // verus!
