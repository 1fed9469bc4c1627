//! Inspecting a Java archive to pick launch parameters.
//!
//! Reading the archive (opening the file, locating `META-INF/MANIFEST.MF`,
//! extracting the entry bytes) is the caller's business; what is verified
//! here is the interpretation: finding the main-class declaration in a
//! manifest, turning a class name into the path of its class file inside the
//! archive, and reading the Java version out of a class-file header.

use crate::text::trim_to_string;
use crate::text::trimmed;
use vstd::prelude::*;
use vstd::string::*;

verus! {

/// What a Java archive declares about itself.
#[derive(Debug)]
pub struct JarInfo {
    /// The class named by the manifest's main-class declaration.
    pub main_class: String,
    /// The Java version of the main class, as mapped from the class-file
    /// format's major version.
    pub java_version: u16,
}

/// Why a Java archive could not be analyzed.
#[derive(Debug)]
pub enum JarError {
    /// The file is not a readable archive, or its main class is not a valid
    /// class file.
    NotJar,
    /// The archive has no manifest, or its manifest declares no main class.
    NoMainClass,
    /// The declared main class is not in the archive.
    ClassNotFound,
    /// Reading an archive entry failed.
    IoError(std::io::Error),
}

#[verifier::external_type_specification]
#[verifier::external_body]
pub struct ExIoError(std::io::Error);

/// The characters of a main-class declaration's key, colon included.
pub open spec fn main_class_prefix() -> Seq<char> {
    seq!['M', 'a', 'i', 'n', '-', 'C', 'l', 'a', 's', 's', ':']
}

/// Whether positions `i` to `j` of `s` are one full line: starting at the
/// text's start or right after a line break, ending at the text's end or
/// right before one, with no break inside.
pub open spec fn is_line(s: Seq<char>, i: int, j: int) -> bool {
    &&& 0 <= i <= j <= s.len()
    &&& (i == 0 || s[i - 1] == '\n')
    &&& (j == s.len() || s[j] == '\n')
    &&& forall|k: int| i <= k < j ==> s[k] != '\n'
}

/// Whether the line `i..j` of `s` is a main-class declaration.
pub open spec fn line_declares_main_class(s: Seq<char>, i: int, j: int) -> bool {
    j - i >= 11 && s.subrange(i, i + 11) == main_class_prefix()
}

/// One line has one end: the first break at or after its start.
pub proof fn lemma_line_end_unique(s: Seq<char>, i: int, j1: int, j2: int)
    requires
        is_line(s, i, j1),
        is_line(s, i, j2),
    ensures
        j1 == j2,
{
    if j1 < j2 {
        assert(s[j1] != '\n');
    }
    if j2 < j1 {
        assert(s[j2] != '\n');
    }
}

/// Whether the eleven characters of `s` at `at` spell the main-class key;
/// `false` when fewer than eleven characters remain before `end`.
fn has_main_class_prefix(s: &str, at: usize, end: usize) -> (r: bool)
    requires
        at <= end <= s@.len(),
    ensures
        r == (end - at >= 11 && s@.subrange(at as int, at + 11) == main_class_prefix()),
{
    if end - at < 11 {
        return false;
    }
    let r = s.get_char(at) == 'M' && s.get_char(at + 1) == 'a' && s.get_char(at + 2) == 'i'
        && s.get_char(at + 3) == 'n' && s.get_char(at + 4) == '-' && s.get_char(at + 5) == 'C'
        && s.get_char(at + 6) == 'l' && s.get_char(at + 7) == 'a' && s.get_char(at + 8) == 's'
        && s.get_char(at + 9) == 's' && s.get_char(at + 10) == ':';
    proof {
        let sub = s@.subrange(at as int, at + 11);
        if r {
            assert(sub =~= main_class_prefix());
        } else {
            if sub == main_class_prefix() {
                assert(s@[at as int] == 'M' && s@[at + 1] == 'a' && s@[at + 2] == 'i' && s@[at + 3]
                    == 'n' && s@[at + 4] == '-' && s@[at + 5] == 'C' && s@[at + 6] == 'l' && s@[at
                    + 7] == 'a' && s@[at + 8] == 's' && s@[at + 9] == 's' && s@[at + 10] == ':')
                    by {
                    assert(forall|k: int| 0 <= k < 11 ==> sub[k] == s@[at + k]);
                }
            }
        }
    }
    r
}

/// The main class a manifest declares: the value of the first line that
/// starts with the main-class key, with surrounding whitespace removed;
/// nothing when no line declares one.
pub fn parse_main_class(manifest: &str) -> (r: Option<String>)
    ensures
        r matches Some(mc) ==> exists|i: int, j: int|
            is_line(manifest@, i, j) && line_declares_main_class(manifest@, i, j) && mc@
                == trimmed(manifest@.subrange(i + 11, j)) && (forall|i2: int, j2: int|
                is_line(manifest@, i2, j2) && line_declares_main_class(manifest@, i2, j2) ==> i
                    <= i2),
        r is None ==> forall|i: int, j: int|
            is_line(manifest@, i, j) ==> !line_declares_main_class(manifest@, i, j),
{
    let n = manifest.unicode_len();
    let mut line_start: usize = 0;
    let mut pos: usize = 0;
    while pos < n
        invariant
            0 <= line_start <= pos <= n,
            n == manifest@.len(),
            line_start == 0 || manifest@[line_start - 1] == '\n',
            forall|k: int| line_start <= k < pos ==> manifest@[k] != '\n',
            forall|i2: int, j2: int|
                is_line(manifest@, i2, j2) && i2 < line_start ==> !line_declares_main_class(
                    manifest@,
                    i2,
                    j2,
                ),
        decreases n - pos,
    {
        if manifest.get_char(pos) == '\n' {
            proof {
                assert(is_line(manifest@, line_start as int, pos as int));
            }
            if has_main_class_prefix(manifest, line_start, pos) {
                let value = manifest.substring_char(line_start + 11, pos);
                let mc = trim_to_string(value);
                proof {
                    let i = line_start as int;
                    let j = pos as int;
                    assert(is_line(manifest@, i, j) && line_declares_main_class(manifest@, i, j)
                        && mc@ == trimmed(manifest@.subrange(i + 11, j)));
                    assert(forall|i2: int, j2: int|
                        is_line(manifest@, i2, j2) && line_declares_main_class(manifest@, i2, j2)
                            ==> i <= i2);
                }
                return Some(mc);
            }
            proof {
                assert forall|i2: int, j2: int|
                    is_line(manifest@, i2, j2) && i2 < pos + 1 implies !line_declares_main_class(
                    manifest@,
                    i2,
                    j2,
                ) by {
                    if i2 >= line_start {
                        assert(i2 == line_start) by {
                            if i2 > line_start {
                                assert(manifest@[i2 - 1] == '\n');
                            }
                        }
                        lemma_line_end_unique(manifest@, i2, j2, pos as int);
                    }
                }
            }
            line_start = pos + 1;
        }
        pos = pos + 1;
    }
    proof {
        assert(is_line(manifest@, line_start as int, n as int));
    }
    if has_main_class_prefix(manifest, line_start, n) {
        let value = manifest.substring_char(line_start + 11, n);
        let mc = trim_to_string(value);
        proof {
            let i = line_start as int;
            let j = n as int;
            assert(is_line(manifest@, i, j) && line_declares_main_class(manifest@, i, j) && mc@
                == trimmed(manifest@.subrange(i + 11, j)));
            assert(forall|i2: int, j2: int|
                is_line(manifest@, i2, j2) && line_declares_main_class(manifest@, i2, j2) ==> i
                    <= i2);
        }
        return Some(mc);
    }
    proof {
        assert forall|i2: int, j2: int| is_line(manifest@, i2, j2) implies
            !line_declares_main_class(manifest@, i2, j2) by {
            if i2 >= line_start {
                assert(i2 == line_start) by {
                    if i2 > line_start {
                        assert(manifest@[i2 - 1] == '\n');
                    }
                }
                lemma_line_end_unique(manifest@, i2, j2, n as int);
            }
        }
    }
    None
}

/// `s` with every dot replaced by a slash.
pub open spec fn dots_to_slashes(s: Seq<char>) -> Seq<char> {
    s.map_values(|c: char| if c == '.' { '/' } else { c })
}

/// The characters of the class-file name suffix.
pub open spec fn class_suffix() -> Seq<char> {
    seq!['.', 'c', 'l', 'a', 's', 's']
}

/// The path of a class's file inside an archive: the class name with its
/// package dots as slashes, and the class-file suffix.
pub fn class_path_of(main_class: &str) -> (r: String)
    ensures
        r@ == dots_to_slashes(main_class@) + class_suffix(),
{
    let n = main_class.unicode_len();
    let mut out = String::new();
    let mut seg_start: usize = 0;
    let mut i: usize = 0;
    while i < n
        invariant
            0 <= seg_start <= i <= n,
            n == main_class@.len(),
            out@ == dots_to_slashes(main_class@.subrange(0, seg_start as int)),
            forall|k: int| seg_start <= k < i ==> main_class@[k] != '.',
        decreases n - i,
    {
        if main_class.get_char(i) == '.' {
            let ghost before = out@;
            out.append(main_class.substring_char(seg_start, i));
            out.append(slash_str());
            proof {
                let upto = main_class@.subrange(0, i + 1);
                assert(out@ =~= dots_to_slashes(upto)) by {
                    assert(forall|k: int|
                        0 <= k < upto.len() ==> dots_to_slashes(upto)[k] == (if upto[k] == '.' {
                            '/'
                        } else {
                            upto[k]
                        }));
                }
            }
            seg_start = i + 1;
        }
        i = i + 1;
    }
    out.append(main_class.substring_char(seg_start, n));
    proof {
        assert(out@ =~= dots_to_slashes(main_class@)) by {
            assert(forall|k: int|
                0 <= k < n ==> dots_to_slashes(main_class@)[k] == (if main_class@[k] == '.' {
                    '/'
                } else {
                    main_class@[k]
                }));
        }
    }
    out.append(class_suffix_str());
    out
}

/// The one-character slash string.
fn slash_str() -> (r: &'static str)
    ensures
        r@ == seq!['/'],
{
    proof {
        reveal_strlit("/");
        assert("/"@ =~= seq!['/']);
    }
    "/"
}

/// The class-file name suffix.
fn class_suffix_str() -> (r: &'static str)
    ensures
        r@ == class_suffix(),
{
    proof {
        reveal_strlit(".class");
        assert(".class"@ =~= class_suffix());
    }
    ".class"
}

/// Whether a class-file header opens with the class-file magic bytes.
pub open spec fn magic_ok(h: Seq<u8>) -> bool {
    h.len() >= 4 && h[0] == 0xCA && h[1] == 0xFE && h[2] == 0xBA && h[3] == 0xBE
}

/// The format's major version in a class-file header: big-endian in the
/// seventh and eighth bytes.
pub open spec fn major_version_of(h: Seq<u8>) -> int {
    h[6] * 256 + h[7]
}

/// The Java version a class-file header declares: the format's major
/// version, shifted so that format 45 is Java 1. A header without the
/// class-file magic, or with a major version below the shift, is not a
/// usable class file.
pub fn parse_class_header(header: &Vec<u8>) -> (r: Result<u16, JarError>)
    requires
        header@.len() == 8,
    ensures
        magic_ok(header@) && major_version_of(header@) >= 44 ==> (r matches Ok(v) && v
            == major_version_of(header@) - 44),
        !(magic_ok(header@) && major_version_of(header@) >= 44) ==> (r matches Err(e) && e
            is NotJar),
{
    if !(header[0] == 0xCA && header[1] == 0xFE && header[2] == 0xBA && header[3] == 0xBE) {
        return Err(JarError::NotJar);
    }
    let major: u16 = header[6] as u16 * 256 + header[7] as u16;
    if major < 44 {
        return Err(JarError::NotJar);
    }
    Ok(major - 44)
}

} // verus!
