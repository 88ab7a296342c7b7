//! The registry of locally offered files.
//!
//! A shareable file is identified by the base name of its path: the part
//! after the last separator, which must be a real component (not empty
//! and not one of the two dot components).  The file system itself is
//! probed outside the library; construction takes the probe's verdict as
//! a plain value.

use vstd::prelude::*;
use vstd::string::{StrSliceExecFns, StringExecFns};

verus! {

/// What a file system probe found at a path.
#[derive(Debug, Clone, Copy, PartialEq, Eq, Structural)]
pub enum PathStatus {
    /// Nothing exists at the path.
    Missing,
    /// The path exists but is not a regular file (a directory, say).
    NotAFile,
    /// The path names a regular file.
    RegularFile,
}

/// Why a path was rejected when offered for sharing.
#[derive(Debug, Clone, Copy, PartialEq, Eq, Structural)]
pub enum ShareableError {
    /// The path has no usable base name.
    NoFileName,
    /// Nothing exists at the path.
    NotFound,
    /// The path exists but is not a regular file.
    NotAFile,
}

impl ShareableError {
    /// A fixed description of the rejection.
    pub fn message(&self) -> (r: &'static str)
        ensures
            r@ == match self {
                ShareableError::NoFileName => "Path must contain a valid file name"@,
                ShareableError::NotFound => "File does not exist"@,
                ShareableError::NotAFile => "Path is not a file"@,
            },
    {
        match self {
            ShareableError::NoFileName => "Path must contain a valid file name",
            ShareableError::NotFound => "File does not exist",
            ShareableError::NotAFile => "Path is not a file",
        }
    }
}

/// The characters after the last `/` of a path (the whole path when it
/// has no `/`; empty when it ends with one).
pub open spec fn after_last_slash(p: Seq<char>) -> Seq<char>
    decreases p.len(),
{
    if p.len() == 0 {
        p
    } else if p.last() == '/' {
        Seq::empty()
    } else {
        after_last_slash(p.drop_last()).push(p.last())
    }
}

/// The base name of a path: the component after the last separator,
/// none when that component is empty or a dot component.
pub open spec fn base_name_of(p: Seq<char>) -> Option<Seq<char>> {
    let t = after_last_slash(p);
    if t.len() == 0 || t == seq!['.'] || t == seq!['.', '.'] {
        None
    } else {
        Some(t)
    }
}

/// After the last slash means: from a cut that sits right after a `/`
/// (or at the start) with no `/` at or beyond it.
proof fn lemma_after_last_slash_at(p: Seq<char>, cut: int)
    requires
        0 <= cut <= p.len(),
        cut > 0 ==> p[cut - 1] == '/',
        forall|j: int| cut <= j < p.len() ==> p[j] != '/',
    ensures
        after_last_slash(p) == p.subrange(cut, p.len() as int),
    decreases p.len(),
{
    if p.len() == 0 {
        assert(p.subrange(0, 0) =~= p);
    } else if p.last() == '/' {
        assert(cut == p.len());
        assert(p.subrange(cut, p.len() as int) =~= Seq::<char>::empty());
    } else {
        assert(cut < p.len());
        lemma_after_last_slash_at(p.drop_last(), cut);
        assert(p.drop_last().subrange(cut, p.len() - 1) =~= p.subrange(cut, p.len() - 1));
        assert(p.subrange(cut, p.len() as int) =~= p.subrange(cut, p.len() - 1).push(p.last()));
    }
}

/// Computes the base name of a path, exactly as [`base_name_of`] gives
/// it.
pub fn base_name(path: &str) -> (r: Option<String>)
    ensures
        match r {
            Some(s) => base_name_of(path@) == Some(s@),
            None => base_name_of(path@) is None,
        },
{
    let n = path.unicode_len();
    let mut cut: usize = 0;
    let mut i: usize = 0;
    while i < n
        invariant
            n == path@.len(),
            i <= n,
            cut <= i,
            cut > 0 ==> path@[cut - 1] == '/',
            forall|j: int| cut <= j < i ==> path@[j] != '/',
        decreases n - i,
    {
        if path.get_char(i) == '/' {
            cut = i + 1;
        }
        i = i + 1;
    }
    proof {
        lemma_after_last_slash_at(path@, cut as int);
    }
    let tail = path.substring_char(cut, n);
    let tail_len = tail.unicode_len();
    if tail_len == 0 {
        return None;
    }
    proof {
        reveal_strlit(".");
        reveal_strlit("..");
        assert("."@ =~= seq!['.']);
        assert(".."@ =~= seq!['.', '.']);
    }
    let tail_string = String::from_str(tail);
    let dot = String::from_str(".");
    let dotdot = String::from_str("..");
    if tail_string == dot || tail_string == dotdot {
        return None;
    }
    Some(tail_string)
}

/// A locally offered file: its path, whether it is currently served,
/// and how often it has been advertised and downloaded.
#[derive(Debug, Clone)]
pub struct Shareable {
    /// Where the file lives on disk.
    pub path: String,
    /// Whether the file is currently offered to peers.
    pub active: bool,
    /// How many advertise replies have listed this file.
    pub advertise: u32,
    /// How many times the file has been served.
    pub downloads: u32,
}

/// A counter bumped by one, stopping at its ceiling.
pub open spec fn sat_inc(n: u32) -> u32 {
    if n < u32::MAX {
        (n + 1) as u32
    } else {
        n
    }
}

impl Shareable {
    /// Accepts a path for sharing.  The path must have a usable base
    /// name and the probe must have found a regular file; a new entry
    /// starts inactive with both counters at zero.
    pub fn new(path: String, status: PathStatus) -> (r: Result<Shareable, ShareableError>)
        ensures
            base_name_of(path@) is None ==> r == Err::<Shareable, ShareableError>(
                ShareableError::NoFileName,
            ),
            base_name_of(path@) is Some && status is Missing ==> r == Err::<
                Shareable,
                ShareableError,
            >(ShareableError::NotFound),
            base_name_of(path@) is Some && status is NotAFile ==> r == Err::<
                Shareable,
                ShareableError,
            >(ShareableError::NotAFile),
            base_name_of(path@) is Some && status is RegularFile ==> (r matches Ok(s) && {
                &&& s.path@ == path@
                &&& s.active == false
                &&& s.advertise == 0
                &&& s.downloads == 0
            }),
    {
        if base_name(path.as_str()).is_none() {
            return Err(ShareableError::NoFileName);
        }
        match status {
            PathStatus::Missing => Err(ShareableError::NotFound),
            PathStatus::NotAFile => Err(ShareableError::NotAFile),
            PathStatus::RegularFile => Ok(
                Shareable { path, active: false, advertise: 0, downloads: 0 },
            ),
        }
    }

    /// Starts serving the file.
    pub fn activate(&mut self)
        ensures
            *final(self) == (Shareable { active: true, ..*old(self) }),
    {
        self.active = true;
    }

    /// Stops serving the file.
    pub fn deactivate(&mut self)
        ensures
            *final(self) == (Shareable { active: false, ..*old(self) }),
    {
        self.active = false;
    }

    /// Whether the file is currently offered.
    pub fn is_active(&self) -> (r: bool)
        ensures
            r == self.active,
    {
        self.active
    }

    /// The name under which the file is offered.
    pub fn file_name(&self) -> (r: Option<String>)
        ensures
            match r {
                Some(s) => base_name_of(self.path@) == Some(s@),
                None => base_name_of(self.path@) is None,
            },
    {
        base_name(self.path.as_str())
    }
}

/// Whether a registry entry answers a request for `name`: it is active
/// and offered under exactly that name.
pub open spec fn serves(f: Shareable, name: Seq<char>) -> bool {
    f.active && base_name_of(f.path@) == Some(name)
}

/// Finds the first active file offered under `name`.
pub fn find_active_file(files: &Vec<Shareable>, name: &String) -> (r: Option<usize>)
    ensures
        match r {
            Some(i) => {
                &&& i < files@.len()
                &&& serves(files@[i as int], name@)
                &&& forall|j: int| 0 <= j < i ==> !serves(#[trigger] files@[j], name@)
            },
            None => forall|j: int| 0 <= j < files@.len() ==> !serves(#[trigger] files@[j], name@),
        },
{
    let mut i: usize = 0;
    while i < files.len()
        invariant
            i <= files@.len(),
            forall|j: int| 0 <= j < i ==> !serves(#[trigger] files@[j], name@),
        decreases files@.len() - i,
    {
        if files[i].is_active() {
            match files[i].file_name() {
                Some(s) => {
                    if s == *name {
                        return Some(i);
                    }
                },
                None => {},
            }
        }
        i = i + 1;
    }
    None
}

/// The names of the active files, in registry order.
pub open spec fn active_names_spec(files: Seq<Shareable>) -> Seq<Seq<char>>
    decreases files.len(),
{
    if files.len() == 0 {
        Seq::empty()
    } else {
        let rest = active_names_spec(files.drop_first());
        match base_name_of(files.first().path@) {
            Some(n) => if files.first().active {
                seq![n] + rest
            } else {
                rest
            },
            None => rest,
        }
    }
}

/// `active_names_spec` distributes over concatenation.
proof fn lemma_active_names_concat(a: Seq<Shareable>, b: Seq<Shareable>)
    ensures
        active_names_spec(a + b) == active_names_spec(a) + active_names_spec(b),
    decreases a.len(),
{
    if a.len() == 0 {
        assert(a + b =~= b);
        assert(active_names_spec(a) + active_names_spec(b) =~= active_names_spec(b));
    } else {
        assert((a + b).first() == a.first());
        assert((a + b).drop_first() =~= a.drop_first() + b);
        lemma_active_names_concat(a.drop_first(), b);
        match base_name_of(a.first().path@) {
            Some(n) => {
                if a.first().active {
                    assert(seq![n] + (active_names_spec(a.drop_first()) + active_names_spec(b))
                        =~= (seq![n] + active_names_spec(a.drop_first())) + active_names_spec(b));
                }
            },
            None => {},
        }
    }
}

/// The names contributed by a single registry entry.
proof fn lemma_active_names_single(f: Shareable)
    ensures
        active_names_spec(seq![f]) == (match base_name_of(f.path@) {
            Some(n) => if f.active {
                seq![n]
            } else {
                Seq::<Seq<char>>::empty()
            },
            None => Seq::<Seq<char>>::empty(),
        }),
{
    assert(seq![f].drop_first() =~= Seq::<Shareable>::empty());
    assert(active_names_spec(Seq::<Shareable>::empty()) == Seq::<Seq<char>>::empty());
    assert(seq![f].first() == f);
    match base_name_of(f.path@) {
        Some(n) => {
            if f.active {
                assert(seq![n] + Seq::<Seq<char>>::empty() =~= seq![n]);
            }
        },
        None => {},
    }
}

/// Collects the names of the currently active files, in registry order.
pub fn active_names(files: &Vec<Shareable>) -> (r: Vec<String>)
    ensures
        crate::message::strings_view(r@) == active_names_spec(files@),
{
    let mut out: Vec<String> = Vec::new();
    assert(crate::message::strings_view(out@) =~= Seq::<Seq<char>>::empty());
    assert(files@.take(0) =~= Seq::<Shareable>::empty());
    let mut i: usize = 0;
    while i < files.len()
        invariant
            i <= files@.len(),
            crate::message::strings_view(out@) == active_names_spec(files@.take(i as int)),
        decreases files@.len() - i,
    {
        let ghost old_out = out@;
        if files[i].is_active() {
            match files[i].file_name() {
                Some(s) => {
                    out.push(s);
                },
                None => {},
            }
        }
        proof {
            let f = files@[i as int];
            assert(files@.take(i + 1) =~= files@.take(i as int) + seq![f]);
            lemma_active_names_concat(files@.take(i as int), seq![f]);
            lemma_active_names_single(f);
            match base_name_of(f.path@) {
                Some(n) => {
                    if f.active {
                        assert(crate::message::strings_view(out@) =~= crate::message::strings_view(
                            old_out,
                        ) + seq![n]);
                    } else {
                        assert(crate::message::strings_view(out@) =~= crate::message::strings_view(
                            old_out,
                        ) + Seq::<Seq<char>>::empty());
                    }
                },
                None => {
                    assert(crate::message::strings_view(out@) =~= crate::message::strings_view(
                        old_out,
                    ) + Seq::<Seq<char>>::empty());
                },
            }
            assert(crate::message::strings_view(out@) =~= active_names_spec(
                files@.take(i + 1),
            ));
        }
        i = i + 1;
    }
    assert(files@.take(files@.len() as int) =~= files@);
    out
}

/// Notes one completed download of the file at `i`.
pub fn record_download(files: &mut Vec<Shareable>, i: usize)
    requires
        i < old(files)@.len(),
    ensures
        final(files)@ == old(files)@.update(
            i as int,
            (Shareable {
                downloads: sat_inc(old(files)@[i as int].downloads),
                ..old(files)@[i as int]
            }),
        ),
{
    let d = files[i].downloads;
    let nd: u32 = if d < u32::MAX {
        d + 1
    } else {
        d
    };
    let f = Shareable {
        path: files[i].path.clone(),
        active: files[i].active,
        advertise: files[i].advertise,
        downloads: nd,
    };
    files.set(i, f);
}

/// Whether the entry's name appears in a list of advertised names.
pub open spec fn listed(f: Shareable, names: Seq<Seq<char>>) -> bool {
    match base_name_of(f.path@) {
        Some(n) => names.contains(n),
        None => false,
    }
}

/// The entry after an advertise reply that listed `names`: its counter
/// is bumped exactly when its own name was among them.
pub open spec fn advertised(f: Shareable, names: Seq<Seq<char>>) -> Shareable {
    if listed(f, names) {
        Shareable { advertise: sat_inc(f.advertise), ..f }
    } else {
        f
    }
}

/// Whether `s` occurs in `names`.
fn contains_name(names: &Vec<String>, s: &String) -> (r: bool)
    ensures
        r == crate::message::strings_view(names@).contains(s@),
{
    let ghost views = crate::message::strings_view(names@);
    let mut j: usize = 0;
    while j < names.len()
        invariant
            j <= names@.len(),
            views == crate::message::strings_view(names@),
            forall|k: int| 0 <= k < j ==> views[k] != s@,
        decreases names@.len() - j,
    {
        if names[j] == *s {
            assert(views[j as int] == s@);
            return true;
        }
        j = j + 1;
    }
    assert(!views.contains(s@));
    false
}

/// Notes one advertise reply that listed `names`: every entry offered
/// under one of those names has its counter bumped by one.
pub fn record_advertise(files: &mut Vec<Shareable>, names: &Vec<String>)
    ensures
        final(files)@.len() == old(files)@.len(),
        forall|i: int| 0 <= i < old(files)@.len() ==> final(files)@[i] == advertised(
            #[trigger] old(files)@[i],
            crate::message::strings_view(names@),
        ),
{
    let ghost views = crate::message::strings_view(names@);
    let mut i: usize = 0;
    while i < files.len()
        invariant
            i <= files@.len(),
            files@.len() == old(files)@.len(),
            views == crate::message::strings_view(names@),
            forall|k: int| 0 <= k < i ==> files@[k] == advertised(#[trigger] old(files)@[k], views),
            forall|k: int| i <= k < files@.len() ==> files@[k] == old(files)@[k],
        decreases files@.len() - i,
    {
        let hit: bool = match files[i].file_name() {
            Some(s) => contains_name(names, &s),
            None => false,
        };
        if hit {
            let a = files[i].advertise;
            let na: u32 = if a < u32::MAX {
                a + 1
            } else {
                a
            };
            let f = Shareable {
                path: files[i].path.clone(),
                active: files[i].active,
                advertise: na,
                downloads: files[i].downloads,
            };
            files.set(i, f);
        }
        i = i + 1;
    }
}

} // verus!
