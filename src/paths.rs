//! Candidate paths of a module's files within a source, and the filters that
//! a source applies to them.
use vstd::prelude::*;

use crate::text::{eq_ignore_case, str_eq, str_eq_ignore_case};

verus! {

/// The kinds of files that a source may hold for a module.
#[derive(Clone, Copy, Debug, PartialEq, Eq, Structural)]
pub enum FileType {
    Pe,
    Pdb,
    MachDebug,
    MachCode,
    ElfDebug,
    ElfCode,
    Breakpad,
    SourceBundle,
}

/// The order in which file types are tried: PDB before PE, debug files
/// before code files.
pub open spec fn canonical_order() -> Seq<FileType> {
    seq![
        FileType::Pdb,
        FileType::Pe,
        FileType::MachDebug,
        FileType::MachCode,
        FileType::ElfDebug,
        FileType::ElfCode,
        FileType::Breakpad,
        FileType::SourceBundle,
    ]
}

fn canonical_order_vec() -> (r: Vec<FileType>)
    ensures
        r@ == canonical_order(),
{
    let r = vec![
        FileType::Pdb,
        FileType::Pe,
        FileType::MachDebug,
        FileType::MachCode,
        FileType::ElfDebug,
        FileType::ElfCode,
        FileType::Breakpad,
        FileType::SourceBundle,
    ];
    assert(r@ =~= canonical_order());
    r
}

/// Whether files of this type are found by the debug identity of a module
/// (else by its code identity).
pub open spec fn is_debug_file(t: FileType) -> bool {
    !(t == FileType::Pe || t == FileType::MachCode || t == FileType::ElfCode)
}

/// How a source lays out its files.
#[derive(Clone, Copy, Debug, PartialEq, Eq, Structural)]
pub enum Layout {
    /// `{name}/{id}/{name}`.
    Native,
    /// `{name}/{id}/{name}`, as a Microsoft symbol store has it.
    Symstore,
    /// A symbol store whose paths start with the name's first two characters.
    SymstoreIndex2,
}

/// What identifies a module. Any of the parts may be missing.
pub struct ObjectId {
    pub debug_id: Option<String>,
    pub code_id: Option<String>,
    pub debug_name: Option<String>,
    pub code_name: Option<String>,
}

/// What a source lets through: file types (all when the list is empty) and
/// path patterns (all when the list is empty).
pub struct SourceFilters {
    pub filetypes: Vec<FileType>,
    pub path_patterns: Vec<String>,
}

/// Whether glob pattern `p` matches all of `s`: `*` stands for any run of
/// characters, `?` for any one character.
pub open spec fn glob_match(p: Seq<char>, s: Seq<char>) -> bool
    decreases p.len() + s.len(),
{
    if p.len() == 0 {
        s.len() == 0
    } else if p[0] == '*' {
        glob_match(p.drop_first(), s) || (s.len() > 0 && glob_match(p, s.drop_first()))
    } else {
        s.len() > 0 && (p[0] == '?' || p[0] == s[0]) && glob_match(p.drop_first(), s.drop_first())
    }
}

fn glob_at(p: &str, s: &str, pi: usize, si: usize) -> (r: bool)
    requires
        pi <= p@.len(),
        si <= s@.len(),
    ensures
        r == glob_match(p@.subrange(pi as int, p@.len() as int), s@.subrange(si as int, s@.len() as int)),
    decreases (p@.len() - pi) + (s@.len() - si),
{
    let ghost ps = p@.subrange(pi as int, p@.len() as int);
    let ghost ss = s@.subrange(si as int, s@.len() as int);
    let pn = p.unicode_len();
    let sn = s.unicode_len();
    if pi == pn {
        return si == sn;
    }
    let c = p.get_char(pi);
    assert(ps[0] == c);
    assert(ps.drop_first() =~= p@.subrange(pi + 1, p@.len() as int));
    if si < sn {
        assert(ss[0] == s@[si as int]);
        assert(ss.drop_first() =~= s@.subrange(si + 1, s@.len() as int));
    }
    if c == '*' {
        if glob_at(p, s, pi + 1, si) {
            return true;
        }
        si < sn && glob_at(p, s, pi, si + 1)
    } else {
        si < sn && (c == '?' || c == s.get_char(si)) && glob_at(p, s, pi + 1, si + 1)
    }
}

/// Whether `pattern` matches all of `path`.
pub fn glob_matches(pattern: &str, path: &str) -> (r: bool)
    ensures
        r == glob_match(pattern@, path@),
{
    assert(pattern@.subrange(0, pattern@.len() as int) =~= pattern@);
    assert(path@.subrange(0, path@.len() as int) =~= path@);
    glob_at(pattern, path, 0, 0)
}

pub open spec fn patterns_view(patterns: Seq<String>) -> Seq<Seq<char>> {
    patterns.map_values(|p: String| p@)
}

/// Whether the path patterns let `path` through.
pub open spec fn path_allowed(patterns: Seq<Seq<char>>, path: Seq<char>) -> bool {
    patterns.len() == 0 || exists|i: int| 0 <= i < patterns.len() && glob_match(patterns[i], path)
}

/// Whether the file types of a source let `t` through.
pub open spec fn type_allowed(filetypes: Seq<FileType>, t: FileType) -> bool {
    filetypes.len() == 0 || filetypes.contains(t)
}

fn path_allowed_exec(patterns: &Vec<String>, path: &str) -> (r: bool)
    ensures
        r == path_allowed(patterns_view(patterns@), path@),
{
    if patterns.len() == 0 {
        return true;
    }
    let mut i: usize = 0;
    while i < patterns.len()
        invariant
            i <= patterns@.len(),
            forall|j: int| 0 <= j < i ==> !glob_match(patterns@[j]@, path@),
        decreases patterns@.len() - i,
    {
        if glob_matches(patterns[i].as_str(), path) {
            assert(patterns_view(patterns@)[i as int] == patterns@[i as int]@);
            return true;
        }
        i = i + 1;
    }
    assert forall|j: int| 0 <= j < patterns@.len() implies !glob_match(
        #[trigger] patterns_view(patterns@)[j],
        path@,
    ) by {
        assert(patterns_view(patterns@)[j] == patterns@[j]@);
    }
    false
}

fn contains_type(types: &Vec<FileType>, t: FileType) -> (r: bool)
    ensures
        r == types@.contains(t),
{
    let mut i: usize = 0;
    while i < types.len()
        invariant
            i <= types@.len(),
            forall|j: int| 0 <= j < i ==> types@[j] != t,
        decreases types@.len() - i,
    {
        if types[i] == t {
            return true;
        }
        i = i + 1;
    }
    false
}

pub open spec fn opt_view(s: Option<String>) -> Option<Seq<char>> {
    match s {
        Some(x) => Some(x@),
        None => None,
    }
}

/// The path of the file of type `t` for a module with this name and id.
pub open spec fn layout_path(layout: Layout, name: Seq<char>, id: Seq<char>) -> Seq<char> {
    let base = name + seq!['/'] + id + seq!['/'] + name;
    match layout {
        Layout::Native => base,
        Layout::Symstore => base,
        Layout::SymstoreIndex2 => name.subrange(0, if name.len() < 2 { name.len() as int } else { 2 })
            + seq!['/'] + base,
    }
}

/// The candidate path of a module's file of type `t`, where the module has
/// the name and id that such a file is found by.
pub open spec fn path_of(obj: ObjectId, t: FileType, layout: Layout) -> Option<Seq<char>> {
    let (name, id) = if is_debug_file(t) {
        (opt_view(obj.debug_name), opt_view(obj.debug_id))
    } else {
        (opt_view(obj.code_name), opt_view(obj.code_id))
    };
    match (name, id) {
        (Some(n), Some(i)) => Some(layout_path(layout, n, i)),
        _ => None,
    }
}

/// The candidate paths, file type by file type along `order`, that the
/// request (`requested`) and the source's filters let through.
pub open spec fn candidate_paths(
    order: Seq<FileType>,
    obj: ObjectId,
    requested: Seq<FileType>,
    filetypes: Seq<FileType>,
    patterns: Seq<Seq<char>>,
    layout: Layout,
) -> Seq<Seq<char>>
    decreases order.len(),
{
    if order.len() == 0 {
        seq![]
    } else {
        let t = order.last();
        let rest = candidate_paths(order.drop_last(), obj, requested, filetypes, patterns, layout);
        match path_of(obj, t, layout) {
            Some(p) => if requested.contains(t) && type_allowed(filetypes, t) && path_allowed(
                patterns,
                p,
            ) {
                rest.push(p)
            } else {
                rest
            },
            None => rest,
        }
    }
}

fn join3(a: &str, b: &str, c: &str) -> (r: String)
    ensures
        r@ == a@ + seq!['/'] + b@ + seq!['/'] + c@,
{
    proof {
        reveal_strlit("/");
    }
    assert("/"@ =~= seq!['/']);
    a.to_string().concat("/").concat(b).concat("/").concat(c)
}

fn make_path(layout: Layout, name: &str, id: &str) -> (r: String)
    ensures
        r@ == layout_path(layout, name@, id@),
{
    let base = join3(name, id, name);
    match layout {
        Layout::Native => base,
        Layout::Symstore => base,
        Layout::SymstoreIndex2 => {
            let n = name.unicode_len();
            let k: usize = if n < 2 {
                n
            } else {
                2
            };
            proof {
                reveal_strlit("/");
            }
            assert("/"@ =~= seq!['/']);
            name.substring_char(0, k).to_string().concat("/").concat(base.as_str())
        },
    }
}

fn file_path(obj: &ObjectId, t: FileType, layout: Layout) -> (r: Option<String>)
    ensures
        opt_view(r) == path_of(*obj, t, layout),
{
    let debug = !(t == FileType::Pe || t == FileType::MachCode || t == FileType::ElfCode);
    let (name, id) = if debug {
        (&obj.debug_name, &obj.debug_id)
    } else {
        (&obj.code_name, &obj.code_id)
    };
    match (name, id) {
        (Some(n), Some(i)) => Some(make_path(layout, n.as_str(), i.as_str())),
        _ => None,
    }
}

/// The candidate paths of a module's files in a source, in the canonical
/// order of file types, keeping the types requested that the source's filters
/// let through, and the paths that its patterns let through.
pub fn prepare_download_paths(
    obj: &ObjectId,
    requested: &Vec<FileType>,
    filters: &SourceFilters,
    layout: Layout,
) -> (r: Vec<String>)
    ensures
        patterns_view(r@) == candidate_paths(
            canonical_order(),
            *obj,
            requested@,
            filters.filetypes@,
            patterns_view(filters.path_patterns@),
            layout,
        ),
{
    let order = canonical_order_vec();
    let ghost pats = patterns_view(filters.path_patterns@);
    let mut r: Vec<String> = Vec::new();
    let mut i: usize = 0;
    while i < order.len()
        invariant
            i <= order@.len(),
            order@ == canonical_order(),
            pats == patterns_view(filters.path_patterns@),
            patterns_view(r@) == candidate_paths(
                order@.subrange(0, i as int),
                *obj,
                requested@,
                filters.filetypes@,
                pats,
                layout,
            ),
        decreases order@.len() - i,
    {
        let t = order[i];
        let ghost before = r@;
        assert(order@.subrange(0, i + 1).drop_last() =~= order@.subrange(0, i as int));
        if let Some(p) = file_path(obj, t, layout) {
            let allowed_type = filters.filetypes.len() == 0 || contains_type(&filters.filetypes, t);
            if contains_type(requested, t) && allowed_type && path_allowed_exec(
                &filters.path_patterns,
                p.as_str(),
            ) {
                r.push(p);
                assert(patterns_view(r@) =~= patterns_view(before).push(r@.last()@));
            }
        }
        i = i + 1;
    }
    assert(order@.subrange(0, i as int) =~= order@);
    r
}

pub open spec fn no_slash(s: Seq<char>) -> bool {
    forall|i: int| 0 <= i < s.len() ==> s[i] != '/'
}

/// `path` is `{name}/{id}/{name}`, with neither part empty nor holding a slash.
pub open spec fn symstore_parts(path: Seq<char>, name: Seq<char>, id: Seq<char>) -> bool {
    &&& name.len() > 0
    &&& id.len() > 0
    &&& no_slash(name)
    &&& no_slash(id)
    &&& path == name + seq!['/'] + id + seq!['/'] + name
}

pub open spec fn has_extension(name: Seq<char>, ext: Seq<char>) -> bool {
    name.len() >= ext.len() && eq_ignore_case(name.subrange(name.len() - ext.len(), name.len() as int), ext)
}

/// The file types that a file of this name may be: PDB for `.pdb`, PE for
/// `.exe` and `.dll` (in any case), none otherwise.
pub open spec fn types_for_name(name: Seq<char>) -> Seq<FileType> {
    if has_extension(name, ".pdb"@) {
        seq![FileType::Pdb]
    } else if has_extension(name, ".exe"@) || has_extension(name, ".dll"@) {
        seq![FileType::Pe]
    } else {
        seq![]
    }
}

fn ends_with_ignore_case(name: &str, ext: &str) -> (r: bool)
    ensures
        r == has_extension(name@, ext@),
{
    let n = name.unicode_len();
    let k = ext.unicode_len();
    if n < k {
        return false;
    }
    str_eq_ignore_case(name.substring_char(n - k, n), ext)
}

fn types_for(name: &str) -> (r: Vec<FileType>)
    ensures
        r@ == types_for_name(name@),
{
    proof {
        reveal_strlit(".pdb");
        reveal_strlit(".exe");
        reveal_strlit(".dll");
    }
    if ends_with_ignore_case(name, ".pdb") {
        let r = vec![FileType::Pdb];
        assert(r@ =~= seq![FileType::Pdb]);
        r
    } else if ends_with_ignore_case(name, ".exe") || ends_with_ignore_case(name, ".dll") {
        let r = vec![FileType::Pe];
        assert(r@ =~= seq![FileType::Pe]);
        r
    } else {
        let r: Vec<FileType> = Vec::new();
        assert(r@ =~= Seq::<FileType>::empty());
        r
    }
}

fn find_slash(s: &str, from: usize) -> (r: usize)
    requires
        from <= s@.len(),
    ensures
        from <= r <= s@.len(),
        forall|i: int| from <= i < r ==> s@[i] != '/',
        r < s@.len() ==> s@[r as int] == '/',
{
    let n = s.unicode_len();
    let mut i: usize = from;
    while i < n && s.get_char(i) != '/'
        invariant
            n == s@.len(),
            from <= i <= n,
            forall|j: int| from <= j < i ==> s@[j] != '/',
        decreases n - i,
    {
        i = i + 1;
    }
    i
}

/// What a request to the symbol store proxy asks for: the file types its
/// file name allows, and the module, by debug identity for a PDB and by code
/// identity for a PE. `None` when the path is not `{name}/{id}/{name}` or the
/// name has no known extension.
pub fn parse_symstore_path(path: &str) -> (r: Option<(Vec<FileType>, ObjectId)>)
    ensures
        r is Some <==> exists|name: Seq<char>, id: Seq<char>|
            symstore_parts(path@, name, id) && types_for_name(name).len() > 0,
        match r {
            Some((types, obj)) => {
                let name = if types@ == seq![FileType::Pdb] { opt_view(obj.debug_name) } else { opt_view(obj.code_name) };
                let id = if types@ == seq![FileType::Pdb] { opt_view(obj.debug_id) } else { opt_view(obj.code_id) };
                &&& name is Some && id is Some
                &&& symstore_parts(path@, name.unwrap(), id.unwrap())
                &&& types@ == types_for_name(name.unwrap())
                &&& types@.len() > 0
                &&& types@ == seq![FileType::Pdb] ==> obj.code_name is None && obj.code_id is None
                &&& types@ != seq![FileType::Pdb] ==> obj.debug_name is None && obj.debug_id is None
            },
            None => true,
        },
{
    let n = path.unicode_len();
    let ghost p = path@;
    proof {
        assert forall|nm: Seq<char>, id: Seq<char>| #[trigger] symstore_parts(p, nm, id) implies {
            &&& forall|i: int| 0 <= i < (nm.len() as int) ==> p[i] != '/'
            &&& p[(nm.len() as int)] == '/'
            &&& forall|i: int| (nm.len() as int) + 1 <= i < (nm.len() as int) + 1 + (id.len() as int) ==> p[i] != '/'
            &&& p[(nm.len() as int) + 1 + (id.len() as int)] == '/'
            &&& forall|i: int| (nm.len() as int) + 2 + (id.len() as int) <= i < p.len() ==> p[i] != '/'
            &&& p.len() == 2 * (nm.len() as int) + (id.len() as int) + 2
            &&& p.subrange(0, (nm.len() as int)) == nm
            &&& p.subrange((nm.len() as int) + 1, (nm.len() as int) + 1 + (id.len() as int)) == id
            &&& p.subrange((nm.len() as int) + 2 + (id.len() as int), p.len() as int) == nm
        } by {
            let q = nm + seq!['/'] + id + seq!['/'] + nm;
            assert forall|i: int| 0 <= i < (nm.len() as int) implies p[i] != '/' by {
                assert(q[i] == nm[i]);
            }
            assert forall|i: int| (nm.len() as int) + 1 <= i < (nm.len() as int) + 1 + (id.len() as int) implies p[i] != '/' by {
                assert(q[i] == id[i - (nm.len() as int) - 1]);
            }
            assert forall|i: int| (nm.len() as int) + 2 + (id.len() as int) <= i < p.len() implies p[i] != '/' by {
                assert(q[i] == nm[i - (nm.len() as int) - 2 - (id.len() as int)]);
            }
            assert(p.subrange(0, (nm.len() as int)) =~= nm);
            assert(p.subrange((nm.len() as int) + 1, (nm.len() as int) + 1 + (id.len() as int)) =~= id);
            assert(p.subrange((nm.len() as int) + 2 + (id.len() as int), p.len() as int) =~= nm);
        }
    }
    let a = find_slash(path, 0);
    if a == n {
        return None;
    }
    let b = find_slash(path, a + 1);
    if b == n {
        return None;
    }
    let c = find_slash(path, b + 1);
    if c != n {
        return None;
    }
    let name = path.substring_char(0, a);
    let id = path.substring_char(a + 1, b);
    let last = path.substring_char(b + 1, n);
    if a == 0 || b == a + 1 || !str_eq(name, last) {
        return None;
    }
    assert(p =~= name@ + seq!['/'] + id@ + seq!['/'] + name@);
    assert(symstore_parts(p, name@, id@));
    let types = types_for(name);
    if types.len() == 0 {
        return None;
    }
    let obj = if types.len() == 1 && types[0] == FileType::Pdb {
        ObjectId { debug_id: Some(id.to_string()), code_id: None, debug_name: Some(name.to_string()), code_name: None }
    } else {
        ObjectId { debug_id: None, code_id: Some(id.to_string()), debug_name: None, code_name: Some(name.to_string()) }
    };
    assert(types@ == seq![FileType::Pdb] <==> (types@.len() == 1 && types@[0] == FileType::Pdb));
    Some((types, obj))
}

/// A path that the proxy parses is the path that the symbol store layout
/// gives for the name and id it was parsed into.
pub proof fn lemma_symstore_round_trip(path: Seq<char>, name: Seq<char>, id: Seq<char>)
    requires
        symstore_parts(path, name, id),
    ensures
        layout_path(Layout::Symstore, name, id) == path,
{
}

/// Every candidate path passes the source's path patterns.
pub proof fn lemma_paths_match_filters(
    order: Seq<FileType>,
    obj: ObjectId,
    requested: Seq<FileType>,
    filetypes: Seq<FileType>,
    patterns: Seq<Seq<char>>,
    layout: Layout,
)
    ensures
        forall|i: int|
            0 <= i < candidate_paths(order, obj, requested, filetypes, patterns, layout).len()
                ==> path_allowed(
                patterns,
                #[trigger] candidate_paths(order, obj, requested, filetypes, patterns, layout)[i],
            ),
    decreases order.len(),
{
    if order.len() > 0 {
        lemma_paths_match_filters(order.drop_last(), obj, requested, filetypes, patterns, layout);
        let rest = candidate_paths(order.drop_last(), obj, requested, filetypes, patterns, layout);
        let all = candidate_paths(order, obj, requested, filetypes, patterns, layout);
        assert forall|i: int| 0 <= i < all.len() implies path_allowed(patterns, #[trigger] all[i]) by {
            if i < rest.len() {
                assert(all[i] == rest[i]);
            }
        }
    }
}

/// A source that declares file types, none of them requested, yields no
/// candidate path.
pub proof fn lemma_no_matching_types(
    order: Seq<FileType>,
    obj: ObjectId,
    requested: Seq<FileType>,
    filetypes: Seq<FileType>,
    patterns: Seq<Seq<char>>,
    layout: Layout,
)
    requires
        filetypes.len() > 0,
        forall|t: FileType| requested.contains(t) ==> !filetypes.contains(t),
    ensures
        candidate_paths(order, obj, requested, filetypes, patterns, layout).len() == 0,
    decreases order.len(),
{
    if order.len() > 0 {
        lemma_no_matching_types(order.drop_last(), obj, requested, filetypes, patterns, layout);
    }
}

} // verus!
