//! Finding which shared object defines a function: the search-path
//! configuration format and the lookup of a symbol in an ELF file.
use vstd::prelude::*;
use vstd::utf8::encode_utf8;

verus! {

/// `s` split at each line feed (an empty text is one empty line).
pub open spec fn lines(s: Seq<u8>) -> Seq<Seq<u8>>
    decreases s.len(),
{
    if s.len() == 0 {
        seq![Seq::empty()]
    } else if s.last() == 0x0au8 {
        lines(s.drop_last()).push(Seq::empty())
    } else {
        let l = lines(s.drop_last());
        l.update(l.len() - 1, l.last().push(s.last()))
    }
}

proof fn lemma_lines_nonempty(s: Seq<u8>)
    ensures
        lines(s).len() >= 1,
    decreases s.len(),
{
    if s.len() > 0 {
        lemma_lines_nonempty(s.drop_last());
    }
}

/// The eight bytes `include `.
pub open spec fn include_prefix() -> Seq<u8> {
    seq![0x69u8, 0x6eu8, 0x63u8, 0x6cu8, 0x75u8, 0x64u8, 0x65u8, 0x20u8]
}

/// The line names an included configuration file.
pub open spec fn is_include(l: Seq<u8>) -> bool {
    l.len() >= 8 && l.subrange(0, 8) == include_prefix()
}

/// The line names a directory: not empty, not a comment, not an include.
pub open spec fn is_dir_line(l: Seq<u8>) -> bool {
    !is_include(l) && l.len() > 0 && l[0] != 0x23u8
}

/// The directory lines of `ls`, in order.
pub open spec fn dir_lines(ls: Seq<Seq<u8>>) -> Seq<Seq<u8>>
    decreases ls.len(),
{
    if ls.len() == 0 {
        ls
    } else if is_dir_line(ls.last()) {
        dir_lines(ls.drop_last()).push(ls.last())
    } else {
        dir_lines(ls.drop_last())
    }
}

/// The included patterns of `ls` (each line without its `include `), in order.
pub open spec fn include_lines(ls: Seq<Seq<u8>>) -> Seq<Seq<u8>>
    decreases ls.len(),
{
    if ls.len() == 0 {
        ls
    } else if is_include(ls.last()) {
        include_lines(ls.drop_last()).push(ls.last().subrange(8, ls.last().len() as int))
    } else {
        include_lines(ls.drop_last())
    }
}

/// The views of a list of byte buffers.
pub open spec fn views(v: Seq<Vec<u8>>) -> Seq<Seq<u8>> {
    v.map_values(|x: Vec<u8>| x@)
}

fn split_lines(s: &[u8]) -> (r: Vec<Vec<u8>>)
    ensures
        views(r@) == lines(s@),
{
    let mut done: Vec<Vec<u8>> = Vec::new();
    let mut cur: Vec<u8> = Vec::new();
    let mut i: usize = 0;
    while i < s.len()
        invariant
            i <= s@.len(),
            views(done@).push(cur@) == lines(s@.subrange(0, i as int)),
        decreases s@.len() - i,
    {
        let ghost prev_done = done@;
        let ghost prev_cur = cur@;
        assert(s@.subrange(0, i + 1).drop_last() =~= s@.subrange(0, i as int));
        if s[i] == 0x0au8 {
            done.push(cur);
            cur = Vec::new();
            assert(views(done@) =~= views(prev_done).push(prev_cur));
        } else {
            cur.push(s[i]);
            proof {
                lemma_lines_nonempty(s@.subrange(0, i as int));
            }
            assert(views(done@).push(cur@) =~= views(prev_done).push(prev_cur).update(
                views(prev_done).len() as int,
                prev_cur.push(s@[i as int]),
            ));
        }
        i = i + 1;
    }
    assert(s@.subrange(0, i as int) =~= s@);
    done.push(cur);
    done
}

fn is_include_line(l: &Vec<u8>) -> (r: bool)
    ensures
        r == is_include(l@),
{
    if l.len() < 8 {
        return false;
    }
    let r = l[0] == 0x69u8 && l[1] == 0x6eu8 && l[2] == 0x63u8 && l[3] == 0x6cu8 && l[4] == 0x75u8
        && l[5] == 0x64u8 && l[6] == 0x65u8 && l[7] == 0x20u8;
    if r {
        assert(l@.subrange(0, 8) =~= include_prefix());
    } else {
        assert(l@.subrange(0, 8) != include_prefix()) by {
            if l@.subrange(0, 8) == include_prefix() {
                assert(l@.subrange(0, 8)[0] == l@[0]);
                assert(l@.subrange(0, 8)[1] == l@[1]);
                assert(l@.subrange(0, 8)[2] == l@[2]);
                assert(l@.subrange(0, 8)[3] == l@[3]);
                assert(l@.subrange(0, 8)[4] == l@[4]);
                assert(l@.subrange(0, 8)[5] == l@[5]);
                assert(l@.subrange(0, 8)[6] == l@[6]);
                assert(l@.subrange(0, 8)[7] == l@[7]);
            }
        }
    }
    r
}

/// The directory lines and the included patterns of a search-path
/// configuration text.
pub fn parse_ld_conf(text: &[u8]) -> (r: (Vec<Vec<u8>>, Vec<Vec<u8>>))
    ensures
        views(r.0@) == dir_lines(lines(text@)),
        views(r.1@) == include_lines(lines(text@)),
{
    let ls = split_lines(text);
    let ghost lv = views(ls@);
    let mut dirs: Vec<Vec<u8>> = Vec::new();
    let mut incs: Vec<Vec<u8>> = Vec::new();
    let mut i: usize = 0;
    while i < ls.len()
        invariant
            i <= ls@.len(),
            lv == views(ls@),
            views(dirs@) == dir_lines(lv.subrange(0, i as int)),
            views(incs@) == include_lines(lv.subrange(0, i as int)),
        decreases ls@.len() - i,
    {
        let l = &ls[i];
        assert(lv.subrange(0, i + 1).drop_last() =~= lv.subrange(0, i as int));
        assert(lv[i as int] == l@);
        let ghost pd = views(dirs@);
        let ghost pi = views(incs@);
        if is_include_line(l) {
            let n = l.len();
            let mut rest: Vec<u8> = Vec::new();
            let mut j: usize = 8;
            while j < n
                invariant
                    8 <= j <= n,
                    n == l@.len(),
                    rest@ == l@.subrange(8, j as int),
                decreases n - j,
            {
                rest.push(l[j]);
                j = j + 1;
                assert(rest@ =~= l@.subrange(8, j as int));
            }
            incs.push(rest);
            assert(views(incs@) =~= pi.push(l@.subrange(8, n as int)));
        } else if l.len() > 0 && l[0] != 0x23u8 {
            dirs.push(l.clone());
            assert(views(dirs@) =~= pd.push(l@));
        }
        i = i + 1;
    }
    assert(lv.subrange(0, i as int) =~= lv);
    (dirs, incs)
}

/// The dynamic symbols of the ELF image `data`, each as its name (when the
/// dynamic string table has one) and whether it is an import; `None` if `data`
/// is not an ELF image.
pub uninterp spec fn elf_symbols(data: Seq<u8>) -> Option<Seq<(Option<Seq<u8>>, bool)>>;

/// The views of a list of symbols.
pub open spec fn symbol_views(v: Seq<(Option<Vec<u8>>, bool)>) -> Seq<(Option<Seq<u8>>, bool)> {
    v.map_values(
        |x: (Option<Vec<u8>>, bool)|
            (
                match x.0 {
                    Some(b) => Some(b@),
                    None => None,
                },
                x.1,
            ),
    )
}

/// Relies on goblin::elf::Elf::parse, its dynamic symbols (`is_import`) and
/// its dynamic string table (`get_at`).
#[verifier::external_body]
fn elf_dynamic_symbols(data: &[u8]) -> (r: Option<Vec<(Option<Vec<u8>>, bool)>>)
    ensures
        r matches Some(v) ==> elf_symbols(data@) == Some(symbol_views(v@)),
        r is None ==> elf_symbols(data@) is None,
{
    let elf = goblin::elf::Elf::parse(data).ok()?;
    let strtab = &elf.dynstrtab;
    Some(elf.dynsyms.iter().map(|s| (strtab.get_at(s.st_name).map(|n| n.as_bytes().to_vec()), s.is_import())).collect())
}

/// Some symbol of `syms` that is not an import is named `name`.
pub open spec fn exports(syms: Seq<(Option<Seq<u8>>, bool)>, name: Seq<u8>) -> bool {
    exists|i: int| 0 <= i < syms.len() && !(#[trigger] syms[i]).1 && syms[i].0 == Some(name)
}

fn same_bytes(a: &Vec<u8>, b: &[u8]) -> (r: bool)
    ensures
        r == (a@ == b@),
{
    if a.len() != b.len() {
        return false;
    }
    let mut i: usize = 0;
    while i < a.len()
        invariant
            i <= a@.len(),
            a@.len() == b@.len(),
            forall|j: int| 0 <= j < i ==> a@[j] == b@[j],
        decreases a@.len() - i,
    {
        if a[i] != b[i] {
            return false;
        }
        i = i + 1;
    }
    assert(a@ =~= b@);
    true
}

/// Whether a symbol of `syms` that is not an import is named `name`.
pub fn find_export(syms: &Vec<(Option<Vec<u8>>, bool)>, name: &[u8]) -> (r: bool)
    ensures
        r == exports(symbol_views(syms@), name@),
{
    let ghost sv = symbol_views(syms@);
    let mut i: usize = 0;
    while i < syms.len()
        invariant
            i <= syms@.len(),
            sv == symbol_views(syms@),
            forall|j: int| 0 <= j < i ==> !(!(#[trigger] sv[j]).1 && sv[j].0 == Some(name@)),
        decreases syms@.len() - i,
    {
        let (n, import) = &syms[i];
        if !*import {
            if let Some(b) = n {
                if same_bytes(b, name) {
                    assert(!sv[i as int].1 && sv[i as int].0 == Some(name@));
                    return true;
                }
            }
        }
        assert(!(!sv[i as int].1 && sv[i as int].0 == Some(name@)));
        i = i + 1;
    }
    false
}

/// The shared libraries that the ELF image `data` needs; `None` if it is not
/// an ELF image.
pub uninterp spec fn elf_libraries(data: Seq<u8>) -> Option<Seq<Seq<char>>>;

/// The views of a list of strings.
pub open spec fn string_views(v: Seq<String>) -> Seq<Seq<char>> {
    v.map_values(|x: String| x@)
}

/// Relies on goblin::elf::Elf::parse and its `libraries` list.
#[verifier::external_body]
fn elf_needed(data: &[u8]) -> (r: Option<Vec<String>>)
    ensures
        r matches Some(v) ==> elf_libraries(data@) == Some(string_views(v@)),
        r is None ==> elf_libraries(data@) is None,
{
    let elf = goblin::elf::Elf::parse(data).ok()?;
    Some(elf.libraries.iter().map(|l| l.to_string()).collect())
}

/// Finds which of a list of shared objects define a function.
pub struct FindSoApplet {
    pub files: Option<Vec<String>>,
    pub function: Option<String>,
    pub is_ref: bool,
    pub paths: Option<Vec<String>>,
    pub quiet: bool,
    pub skip_symlinks: bool,
}

impl FindSoApplet {
    pub fn new() -> (r: FindSoApplet)
        ensures
            r.files is None && r.function is None && r.paths is None,
            !r.is_ref && !r.quiet && !r.skip_symlinks,
    {
        FindSoApplet { files: None, function: None, is_ref: false, paths: None, quiet: false, skip_symlinks: false }
    }

    /// Whether the ELF image `data` exports the function (a dynamic symbol of
    /// that name that is not an import); `None` if it is not an ELF image or
    /// no function was given.
    pub fn defines(&self, data: &[u8]) -> (r: Option<bool>)
        ensures
            self.function is None ==> r is None,
            self.function matches Some(f) ==> match elf_symbols(data@) {
                None => r is None,
                Some(syms) => r == Some(exports(syms, encode_utf8(f@))),
            },
    {
        match &self.function {
            Some(f) => match elf_dynamic_symbols(data) {
                Some(syms) => Some(find_export(&syms, f.as_str().as_bytes())),
                None => None,
            },
            None => None,
        }
    }

    /// The libraries that the reference image `data` needs.
    pub fn reference_libraries(&self, data: &[u8]) -> (r: Option<Vec<String>>)
        ensures
            r matches Some(v) ==> elf_libraries(data@) == Some(string_views(v@)),
            r is None ==> elf_libraries(data@) is None,
    {
        elf_needed(data)
    }

    /// A file that defines the function is reported unless it is a symbolic
    /// link and links are skipped.
    pub fn reports(&self, found: bool, is_symlink: bool) -> (r: bool)
        ensures
            r == (found && !(self.skip_symlinks && is_symlink)),
    {
        found && !(self.skip_symlinks && is_symlink)
    }
}

} // verus!
