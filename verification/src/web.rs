//! The decisions of the web frontend: what kind of file an app came in,
//! which emulator runs it, what it is called, and how long the phone
//! vibrates.
use vstd::prelude::*;

verus! {

/// The platforms an app archive can be for.
#[derive(Debug, Clone, Copy, PartialEq, Eq, Structural)]
pub enum ArchivePlatform {
    Ktf,
    Lgt,
    Skt,
}

/// The emulators a bare JAR can run in.
#[derive(Debug, Clone, Copy, PartialEq, Eq, Structural)]
pub enum JarEmulator {
    Ktf,
    Lgt,
    Skt,
    J2me,
}

/// The kinds of file an app comes in.
#[derive(Debug, Clone, Copy, PartialEq, Eq, Structural)]
pub enum AppFileKind {
    /// A ZIP archive holding the app's JAR and its descriptors.
    Archive,
    /// A bare JAR.
    Jar,
}

/// Why an app cannot be imported.
#[derive(Debug, Clone, Copy, PartialEq, Eq, Structural)]
pub enum ImportError {
    /// The archive holds no JAR file.
    NoJarFile,
    /// No emulator can load the archive.
    UnknownArchiveFormat,
    /// The file is neither a ZIP archive nor a JAR.
    UnknownFileFormat,
}

/// The number of `c` in lower case, for ASCII letters.
pub open spec fn ascii_lower(c: char) -> u32 {
    if 'A' <= c <= 'Z' {
        (c as u32 + 32) as u32
    } else {
        c as u32
    }
}

/// Whether `name` ends with `suffix`, ignoring the case of ASCII letters;
/// `suffix` is in lower case.
pub open spec fn ends_with_ignoring_case(name: Seq<char>, suffix: Seq<char>) -> bool {
    &&& name.len() >= suffix.len()
    &&& forall|i: int|
        0 <= i < suffix.len() ==> #[trigger] ascii_lower(name[name.len() - suffix.len() + i])
            == suffix[i] as u32
}

pub open spec fn zip_suffix() -> Seq<char> {
    seq!['.', 'z', 'i', 'p']
}

pub open spec fn jar_suffix() -> Seq<char> {
    seq!['.', 'j', 'a', 'r']
}

/// The kind of file `filename` names, by its extension.
pub open spec fn file_kind_of(filename: Seq<char>) -> Result<AppFileKind, ImportError> {
    if ends_with_ignoring_case(filename, zip_suffix()) {
        Ok(AppFileKind::Archive)
    } else if ends_with_ignoring_case(filename, jar_suffix()) {
        Ok(AppFileKind::Jar)
    } else {
        Err(ImportError::UnknownFileFormat)
    }
}

/// The platform an archive is for: it must hold a JAR file; the first of
/// KTF, LGT and SKT whose emulator can load it wins.
pub open spec fn archive_platform_of(
    names: Seq<Seq<char>>,
    ktf_loadable: bool,
    lgt_loadable: bool,
    skt_loadable: bool,
) -> Result<ArchivePlatform, ImportError> {
    if !(exists|i: int| 0 <= i < names.len() && ends_with_ignoring_case(#[trigger] names[i], jar_suffix())) {
        Err(ImportError::NoJarFile)
    } else if ktf_loadable {
        Ok(ArchivePlatform::Ktf)
    } else if lgt_loadable {
        Ok(ArchivePlatform::Lgt)
    } else if skt_loadable {
        Ok(ArchivePlatform::Skt)
    } else {
        Err(ImportError::UnknownArchiveFormat)
    }
}

/// The part of `path` after its last `'/'`.
pub open spec fn last_slash(path: Seq<char>, n: int) -> int
    decreases n,
{
    if n <= 0 {
        -1
    } else if path[n - 1] == '/' {
        n - 1
    } else {
        last_slash(path, n - 1)
    }
}

pub open spec fn file_name_of(path: Seq<char>) -> Seq<char> {
    path.subrange(last_slash(path, path.len() as int) + 1, path.len() as int)
}

fn lower(c: char) -> (r: u32)
    ensures
        r == ascii_lower(c),
{
    if 'A' <= c && c <= 'Z' {
        c as u32 + 32
    } else {
        c as u32
    }
}

fn ends_with_exec(name: &Vec<char>, suffix: &[char; 4]) -> (r: bool)
    ensures
        r == ends_with_ignoring_case(name@, suffix@),
{
    if name.len() < 4 {
        return false;
    }
    let start: usize = name.len() - 4;
    let mut i: usize = 0;
    while i < 4
        invariant
            name@.len() >= 4,
            start + 4 == name.len(),
            suffix@.len() == 4,
            i <= 4,
            forall|j: int| 0 <= j < i ==> #[trigger] ascii_lower(name@[start + j]) == suffix@[j] as u32,
        decreases 4 - i,
    {
        let expected: u32 = suffix[i] as u32;
        if lower(name[start + i]) != expected {
            proof {
                assert(ascii_lower(name@[name@.len() - suffix@.len() + i]) != suffix@[i as int] as u32);
            }
            return false;
        }
        i += 1;
    }
    true
}

/// The kind of file `filename` names, by its extension (`.zip` or `.jar`,
/// in any case).
pub fn file_kind(filename: &Vec<char>) -> (r: Result<AppFileKind, ImportError>)
    ensures
        r == file_kind_of(filename@),
{
    let zip = ['.', 'z', 'i', 'p'];
    let jar = ['.', 'j', 'a', 'r'];
    proof {
        assert(zip@ =~= zip_suffix());
        assert(jar@ =~= jar_suffix());
    }
    if ends_with_exec(filename, &zip) {
        Ok(AppFileKind::Archive)
    } else if ends_with_exec(filename, &jar) {
        Ok(AppFileKind::Jar)
    } else {
        Err(ImportError::UnknownFileFormat)
    }
}

/// The platform of an archive holding files named `names`, given which
/// emulators can load it; see [`archive_platform_of`].
pub fn archive_platform(names: &Vec<Vec<char>>, ktf_loadable: bool, lgt_loadable: bool, skt_loadable: bool) -> (r:
    Result<ArchivePlatform, ImportError>)
    ensures
        r == archive_platform_of(
            names@.map_values(|n: Vec<char>| n@),
            ktf_loadable,
            lgt_loadable,
            skt_loadable,
        ),
{
    let ghost views = names@.map_values(|n: Vec<char>| n@);
    let jar = ['.', 'j', 'a', 'r'];
    proof {
        assert(jar@ =~= jar_suffix());
    }
    let mut found = false;
    let mut i: usize = 0;
    while i < names.len()
        invariant
            i <= names@.len(),
            views == names@.map_values(|n: Vec<char>| n@),
            jar@ == jar_suffix(),
            found == exists|j: int| 0 <= j < i && ends_with_ignoring_case(#[trigger] views[j], jar_suffix()),
        decreases names@.len() - i,
    {
        if ends_with_exec(&names[i], &jar) {
            found = true;
            proof {
                assert(views[i as int] == names@[i as int]@);
            }
        } else {
            proof {
                assert(views[i as int] == names@[i as int]@);
                assert forall|j: int| 0 <= j < i + 1 && ends_with_ignoring_case(#[trigger] views[j], jar_suffix())
                    implies j < i by {}
            }
        }
        i += 1;
    }
    if !found {
        return Err(ImportError::NoJarFile);
    }
    if ktf_loadable {
        Ok(ArchivePlatform::Ktf)
    } else if lgt_loadable {
        Ok(ArchivePlatform::Lgt)
    } else if skt_loadable {
        Ok(ArchivePlatform::Skt)
    } else {
        Err(ImportError::UnknownArchiveFormat)
    }
}

/// The emulator a bare JAR runs in: the first of KTF, LGT and SKT that can
/// load it, else the plain J2ME emulator.
pub fn jar_emulator(ktf_loadable: bool, lgt_loadable: bool, skt_loadable: bool) -> (r: JarEmulator)
    ensures
        r == if ktf_loadable {
            JarEmulator::Ktf
        } else if lgt_loadable {
            JarEmulator::Lgt
        } else if skt_loadable {
            JarEmulator::Skt
        } else {
            JarEmulator::J2me
        },
{
    if ktf_loadable {
        JarEmulator::Ktf
    } else if lgt_loadable {
        JarEmulator::Lgt
    } else if skt_loadable {
        JarEmulator::Skt
    } else {
        JarEmulator::J2me
    }
}

/// The file name at the end of `path`: what follows its last `'/'`.
pub fn file_name(path: &Vec<char>) -> (r: Vec<char>)
    ensures
        r@ == file_name_of(path@),
{
    let n = path.len();
    let mut start: usize = n;
    while start > 0 && path[start - 1] != '/'
        invariant
            start <= n == path@.len(),
            forall|j: int| start <= j < n ==> path@[j] != '/',
            last_slash(path@, n as int) == last_slash(path@, start as int),
        decreases start,
    {
        start -= 1;
    }
    proof {
        lemma_last_slash_bounds(path@, start as int);
        if start > 0 {
            assert(last_slash(path@, start as int) == start - 1);
        }
    }
    crate::font::copy_range(path, start, n)
}

proof fn lemma_last_slash_bounds(path: Seq<char>, n: int)
    requires
        0 <= n <= path.len(),
    ensures
        -1 <= last_slash(path, n) < n,
    decreases n,
{
    if n > 0 {
        lemma_last_slash_bounds(path, n - 1);
    }
}

/// The id of an app that came as the JAR `filename`: without its `.jar`
/// extension when a phone platform's emulator can load it, else the file
/// name itself.
pub fn jar_app_id(filename: &Vec<char>, platform_loadable: bool) -> (r: Vec<char>)
    requires
        platform_loadable ==> filename@.len() >= 4,
    ensures
        platform_loadable ==> r@ == filename@.subrange(0, filename@.len() - 4),
        !platform_loadable ==> r@ == filename@,
{
    if platform_loadable {
        crate::font::copy_range(filename, 0, filename.len() - 4)
    } else {
        crate::font::copy_range(filename, 0, filename.len())
    }
}

/// How long the phone vibrates for a request of `duration_ms` at
/// `intensity`: not at all when either is zero, else the duration, capped
/// at the longest the browser takes.
pub fn vibration_duration(duration_ms: u64, intensity: u8) -> (r: Option<u32>)
    ensures
        (duration_ms == 0 || intensity == 0) ==> r is None,
        !(duration_ms == 0 || intensity == 0) ==> r == Some(
            if duration_ms > u32::MAX {
                u32::MAX
            } else {
                duration_ms as u32
            },
        ),
{
    if duration_ms == 0 || intensity == 0 {
        return None;
    }
    Some(
        if duration_ms > u32::MAX as u64 {
            u32::MAX
        } else {
            duration_ms as u32
        },
    )
}

} // verus!
