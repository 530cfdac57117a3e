//! The extension of a file name and the category of file that it stands for.

use crate::utf16::chars_of_str;
use vstd::prelude::*;

verus! {

/// The category of a file, told by its extension.
#[derive(Clone, Copy, Debug, PartialEq, Eq, Structural)]
pub enum FileType {
    Document,
    Spreadsheet,
    Presentation,
    Image,
    Video,
    Audio,
    Archive,
    Code,
    Markup,
    Executable,
    Config,
    Database,
    Other,
    /// The name has no extension, or an empty one.
    NoExtension,
}

impl FileType {
    /// The words under which the category is reported.
    pub open spec fn label_spec(self) -> Seq<char> {
        match self {
            FileType::Document => "Document"@,
            FileType::Spreadsheet => "Spreadsheet"@,
            FileType::Presentation => "Presentation"@,
            FileType::Image => "Image"@,
            FileType::Video => "Video"@,
            FileType::Audio => "Audio"@,
            FileType::Archive => "Archive"@,
            FileType::Code => "Code"@,
            FileType::Markup => "Markup"@,
            FileType::Executable => "Executable"@,
            FileType::Config => "Config"@,
            FileType::Database => "Database"@,
            FileType::Other => "Other"@,
            FileType::NoExtension => "Folder/No Extension"@,
        }
    }

    /// The words under which the category is reported.
    pub fn label(self) -> (words: &'static str)
        ensures
            words@ == self.label_spec(),
    {
        match self {
            FileType::Document => "Document",
            FileType::Spreadsheet => "Spreadsheet",
            FileType::Presentation => "Presentation",
            FileType::Image => "Image",
            FileType::Video => "Video",
            FileType::Audio => "Audio",
            FileType::Archive => "Archive",
            FileType::Code => "Code",
            FileType::Markup => "Markup",
            FileType::Executable => "Executable",
            FileType::Config => "Config",
            FileType::Database => "Database",
            FileType::Other => "Other",
            FileType::NoExtension => "Folder/No Extension",
        }
    }
}

/// The Kelvin sign, U+212A: the one character outside ASCII whose lower-case
/// form is an ASCII letter.
pub const KELVIN_SIGN: char = '\u{212A}';

/// The character under which `c` is looked up: the lower-case form of every
/// character that has an ASCII letter for it, which are the ASCII capitals
/// and the Kelvin sign; any other character itself. No category is listed
/// under an extension with a character outside ASCII, so a lookup under this
/// form finds what a lookup under the full lower-case form finds.
pub open spec fn lower_char(c: char) -> char {
    if 'A' <= c && c <= 'Z' {
        ((c as u32) + 32) as char
    } else if c == KELVIN_SIGN {
        'k'
    } else {
        c
    }
}

/// `text` with each character replaced by the one under which it is looked
/// up.
pub open spec fn lower_seq(text: Seq<char>) -> Seq<char> {
    Seq::new(text.len(), |i: int| lower_char(text[i]))
}

/// Whether the last `.` of `name` stands at index `i`.
pub open spec fn is_last_dot(name: Seq<char>, i: int) -> bool {
    &&& 0 <= i < name.len()
    &&& name[i] == '.'
    &&& forall|j: int| i < j < name.len() ==> name[j] != '.'
}

/// Whether `name` holds a `.` at all.
pub open spec fn has_dot(name: Seq<char>) -> bool {
    exists|i: int| 0 <= i < name.len() && name[i] == '.'
}

/// The index of the last `.` of a name that has one.
pub open spec fn last_dot(name: Seq<char>) -> int {
    choose|i: int| is_last_dot(name, i)
}

/// What follows the last `.` of `name`; empty where there is no `.`.
pub open spec fn bare_extension(name: Seq<char>) -> Seq<char> {
    if has_dot(name) {
        name.subrange(last_dot(name) + 1, name.len() as int)
    } else {
        Seq::empty()
    }
}

/// The extension as it is reported: the last `.` of `name` and what follows
/// it, in the name's own case, or a fixed phrase where the name has no `.`.
pub open spec fn extension_text(name: Seq<char>) -> Seq<char> {
    if has_dot(name) {
        name.subrange(last_dot(name), name.len() as int)
    } else {
        "[no extension]"@
    }
}

/// The lower-case extensions of the category `Document`.
pub open spec fn is_document(ext: Seq<char>) -> bool {
    ||| ext == "txt"@
    ||| ext == "doc"@
    ||| ext == "docx"@
    ||| ext == "pdf"@
    ||| ext == "rtf"@
    ||| ext == "odt"@
}

/// The lower-case extensions of the category `Spreadsheet`.
pub open spec fn is_spreadsheet(ext: Seq<char>) -> bool {
    ||| ext == "xls"@
    ||| ext == "xlsx"@
    ||| ext == "csv"@
    ||| ext == "ods"@
}

/// The lower-case extensions of the category `Presentation`.
pub open spec fn is_presentation(ext: Seq<char>) -> bool {
    ||| ext == "ppt"@
    ||| ext == "pptx"@
    ||| ext == "odp"@
}

/// The lower-case extensions of the category `Image`.
pub open spec fn is_image(ext: Seq<char>) -> bool {
    ||| ext == "jpg"@
    ||| ext == "jpeg"@
    ||| ext == "png"@
    ||| ext == "gif"@
    ||| ext == "bmp"@
    ||| ext == "svg"@
    ||| ext == "webp"@
    ||| ext == "ico"@
}

/// The lower-case extensions of the category `Video`.
pub open spec fn is_video(ext: Seq<char>) -> bool {
    ||| ext == "mp4"@
    ||| ext == "avi"@
    ||| ext == "mkv"@
    ||| ext == "mov"@
    ||| ext == "wmv"@
    ||| ext == "flv"@
    ||| ext == "webm"@
}

/// The lower-case extensions of the category `Audio`.
pub open spec fn is_audio(ext: Seq<char>) -> bool {
    ||| ext == "mp3"@
    ||| ext == "wav"@
    ||| ext == "flac"@
    ||| ext == "aac"@
    ||| ext == "ogg"@
    ||| ext == "wma"@
    ||| ext == "m4a"@
}

/// The lower-case extensions of the category `Archive`.
pub open spec fn is_archive(ext: Seq<char>) -> bool {
    ||| ext == "zip"@
    ||| ext == "rar"@
    ||| ext == "7z"@
    ||| ext == "tar"@
    ||| ext == "gz"@
    ||| ext == "bz2"@
}

/// The lower-case extensions of the category `Code`.
pub open spec fn is_code(ext: Seq<char>) -> bool {
    ||| ext == "rs"@
    ||| ext == "py"@
    ||| ext == "js"@
    ||| ext == "ts"@
    ||| ext == "java"@
    ||| ext == "cpp"@
    ||| ext == "c"@
    ||| ext == "h"@
    ||| ext == "cs"@
}

/// The lower-case extensions of the category `Markup`.
pub open spec fn is_markup(ext: Seq<char>) -> bool {
    ||| ext == "html"@
    ||| ext == "css"@
    ||| ext == "json"@
    ||| ext == "xml"@
    ||| ext == "yaml"@
    ||| ext == "yml"@
}

/// The lower-case extensions of the category `Executable`.
pub open spec fn is_executable(ext: Seq<char>) -> bool {
    ||| ext == "exe"@
    ||| ext == "dll"@
    ||| ext == "msi"@
    ||| ext == "bat"@
    ||| ext == "cmd"@
    ||| ext == "ps1"@
}

/// The lower-case extensions of the category `Config`.
pub open spec fn is_config(ext: Seq<char>) -> bool {
    ||| ext == "ini"@
    ||| ext == "cfg"@
    ||| ext == "conf"@
    ||| ext == "log"@
}

/// The lower-case extensions of the category `Database`.
pub open spec fn is_database(ext: Seq<char>) -> bool {
    ||| ext == "db"@
    ||| ext == "sqlite"@
    ||| ext == "mdb"@
}

/// The category of a lower-case extension, given without its `.`.
pub open spec fn type_of_extension(ext: Seq<char>) -> FileType {
    if ext.len() == 0 {
        FileType::NoExtension
    } else if is_document(ext) {
        FileType::Document
    } else if is_spreadsheet(ext) {
        FileType::Spreadsheet
    } else if is_presentation(ext) {
        FileType::Presentation
    } else if is_image(ext) {
        FileType::Image
    } else if is_video(ext) {
        FileType::Video
    } else if is_audio(ext) {
        FileType::Audio
    } else if is_archive(ext) {
        FileType::Archive
    } else if is_code(ext) {
        FileType::Code
    } else if is_markup(ext) {
        FileType::Markup
    } else if is_executable(ext) {
        FileType::Executable
    } else if is_config(ext) {
        FileType::Config
    } else if is_database(ext) {
        FileType::Database
    } else {
        FileType::Other
    }
}

/// The category of a file name: that of its extension, letters of either case
/// counting alike.
pub open spec fn file_type_of(name: Seq<char>) -> FileType {
    type_of_extension(lower_seq(bare_extension(name)))
}

/// Whether `text` is exactly `word`.
fn is_word(text: &[char], word: &str) -> (same: bool)
    ensures
        same == (text@ == word@),
{
    let n: usize = word.unicode_len();
    if text.len() != n {
        return false;
    }
    let mut i: usize = 0;
    while i < n
        invariant
            i <= n,
            n == word@.len(),
            n == text@.len(),
            forall|j: int| 0 <= j < i ==> text@[j] == word@[j],
        decreases n - i,
    {
        if text[i] != word.get_char(i) {
            return false;
        }
        i = i + 1;
    }
    assert(text@ =~= word@);
    true
}

fn in_document(ext: &[char]) -> (found: bool)
    ensures
        found == is_document(ext@),
{
    is_word(ext, "txt")
        || is_word(ext, "doc")
        || is_word(ext, "docx")
        || is_word(ext, "pdf")
        || is_word(ext, "rtf")
        || is_word(ext, "odt")
}

fn in_spreadsheet(ext: &[char]) -> (found: bool)
    ensures
        found == is_spreadsheet(ext@),
{
    is_word(ext, "xls") || is_word(ext, "xlsx") || is_word(ext, "csv") || is_word(ext, "ods")
}

fn in_presentation(ext: &[char]) -> (found: bool)
    ensures
        found == is_presentation(ext@),
{
    is_word(ext, "ppt") || is_word(ext, "pptx") || is_word(ext, "odp")
}

fn in_image(ext: &[char]) -> (found: bool)
    ensures
        found == is_image(ext@),
{
    is_word(ext, "jpg")
        || is_word(ext, "jpeg")
        || is_word(ext, "png")
        || is_word(ext, "gif")
        || is_word(ext, "bmp")
        || is_word(ext, "svg")
        || is_word(ext, "webp")
        || is_word(ext, "ico")
}

fn in_video(ext: &[char]) -> (found: bool)
    ensures
        found == is_video(ext@),
{
    is_word(ext, "mp4")
        || is_word(ext, "avi")
        || is_word(ext, "mkv")
        || is_word(ext, "mov")
        || is_word(ext, "wmv")
        || is_word(ext, "flv")
        || is_word(ext, "webm")
}

fn in_audio(ext: &[char]) -> (found: bool)
    ensures
        found == is_audio(ext@),
{
    is_word(ext, "mp3")
        || is_word(ext, "wav")
        || is_word(ext, "flac")
        || is_word(ext, "aac")
        || is_word(ext, "ogg")
        || is_word(ext, "wma")
        || is_word(ext, "m4a")
}

fn in_archive(ext: &[char]) -> (found: bool)
    ensures
        found == is_archive(ext@),
{
    is_word(ext, "zip")
        || is_word(ext, "rar")
        || is_word(ext, "7z")
        || is_word(ext, "tar")
        || is_word(ext, "gz")
        || is_word(ext, "bz2")
}

fn in_code(ext: &[char]) -> (found: bool)
    ensures
        found == is_code(ext@),
{
    is_word(ext, "rs")
        || is_word(ext, "py")
        || is_word(ext, "js")
        || is_word(ext, "ts")
        || is_word(ext, "java")
        || is_word(ext, "cpp")
        || is_word(ext, "c")
        || is_word(ext, "h")
        || is_word(ext, "cs")
}

fn in_markup(ext: &[char]) -> (found: bool)
    ensures
        found == is_markup(ext@),
{
    is_word(ext, "html")
        || is_word(ext, "css")
        || is_word(ext, "json")
        || is_word(ext, "xml")
        || is_word(ext, "yaml")
        || is_word(ext, "yml")
}

fn in_executable(ext: &[char]) -> (found: bool)
    ensures
        found == is_executable(ext@),
{
    is_word(ext, "exe")
        || is_word(ext, "dll")
        || is_word(ext, "msi")
        || is_word(ext, "bat")
        || is_word(ext, "cmd")
        || is_word(ext, "ps1")
}

fn in_config(ext: &[char]) -> (found: bool)
    ensures
        found == is_config(ext@),
{
    is_word(ext, "ini") || is_word(ext, "cfg") || is_word(ext, "conf") || is_word(ext, "log")
}

fn in_database(ext: &[char]) -> (found: bool)
    ensures
        found == is_database(ext@),
{
    is_word(ext, "db") || is_word(ext, "sqlite") || is_word(ext, "mdb")
}

/// The category of a lower-case extension, given without its `.`.
pub fn classify_extension(ext: &[char]) -> (kind: FileType)
    ensures
        kind == type_of_extension(ext@),
{
    if ext.len() == 0 {
        FileType::NoExtension
    } else if in_document(ext) {
        FileType::Document
    } else if in_spreadsheet(ext) {
        FileType::Spreadsheet
    } else if in_presentation(ext) {
        FileType::Presentation
    } else if in_image(ext) {
        FileType::Image
    } else if in_video(ext) {
        FileType::Video
    } else if in_audio(ext) {
        FileType::Audio
    } else if in_archive(ext) {
        FileType::Archive
    } else if in_code(ext) {
        FileType::Code
    } else if in_markup(ext) {
        FileType::Markup
    } else if in_executable(ext) {
        FileType::Executable
    } else if in_config(ext) {
        FileType::Config
    } else if in_database(ext) {
        FileType::Database
    } else {
        FileType::Other
    }
}

/// The character under which `c` is looked up: its lower-case form where
/// that is an ASCII letter, else `c` itself.
pub fn to_lower_char(c: char) -> (lower: char)
    ensures
        lower == lower_char(c),
{
    if 'A' <= c && c <= 'Z' {
        let code: u32 = c as u32;
        match char::from_u32(code + 32) {
            Some(lower) => lower,
            None => c,
        }
    } else if c == KELVIN_SIGN {
        'k'
    } else {
        c
    }
}

/// Where the last `.` of `name` stands, if it has one.
pub fn find_last_dot(name: &[char]) -> (at: Option<usize>)
    ensures
        at.is_some() == has_dot(name@),
        at.is_some() ==> is_last_dot(name@, at.unwrap() as int) && last_dot(name@) == at.unwrap(),
{
    let mut i: usize = name.len();
    while i > 0
        invariant
            i <= name.len(),
            forall|j: int| i <= j < name.len() ==> name@[j] != '.',
        decreases i,
    {
        if name[i - 1] == '.' {
            proof {
                let at = (i - 1) as int;
                assert(is_last_dot(name@, at));
                lemma_last_dot_unique(name@, at, last_dot(name@));
            }
            return Some(i - 1);
        }
        i = i - 1;
    }
    None
}

/// A name has at most one last `.`.
pub proof fn lemma_last_dot_unique(name: Seq<char>, i: int, k: int)
    requires
        is_last_dot(name, i),
        is_last_dot(name, k),
    ensures
        i == k,
{
    if i < k {
        assert(name[k] != '.');
    } else if k < i {
        assert(name[i] != '.');
    }
}

/// A name with a `.` at index `i` has a last `.`, at `i` or behind it.
pub proof fn lemma_last_dot_exists(name: Seq<char>, i: int)
    requires
        0 <= i < name.len(),
        name[i] == '.',
    ensures
        has_dot(name),
        is_last_dot(name, last_dot(name)),
        i <= last_dot(name),
    decreases name.len() - i,
{
    if forall|j: int| i < j < name.len() ==> name[j] != '.' {
        assert(is_last_dot(name, i));
        lemma_last_dot_unique(name, i, last_dot(name));
    } else {
        let j = choose|j: int| i < j < name.len() && name[j] == '.';
        lemma_last_dot_exists(name, j);
    }
}

/// The category of the file called `name`.
pub fn file_type_of_chars(name: &[char]) -> (kind: FileType)
    ensures
        kind == file_type_of(name@),
{
    let mut ext: Vec<char> = Vec::new();
    match find_last_dot(name) {
        Some(at) => {
            let n: usize = name.len();
            let mut i: usize = at + 1;
            while i < n
                invariant
                    n == name.len(),
                    at < i <= n,
                    ext@ == lower_seq(name@.subrange(at + 1, i as int)),
                decreases n - i,
            {
                ext.push(to_lower_char(name[i]));
                assert(lower_seq(name@.subrange(at + 1, i + 1)) =~= lower_seq(
                    name@.subrange(at + 1, i as int),
                ).push(lower_char(name@[i as int])));
                i = i + 1;
            }
        },
        None => {
            assert(ext@ =~= lower_seq(Seq::<char>::empty()));
        },
    }
    classify_extension(ext.as_slice())
}

/// The extension of the file called `name`, as it is reported.
pub fn extension_of_chars(name: &[char]) -> (ext: String)
    ensures
        ext@ == extension_text(name@),
{
    match find_last_dot(name) {
        Some(at) => {
            let mut ext = String::new();
            let mut i: usize = at;
            while i < name.len()
                invariant
                    at <= i <= name.len(),
                    ext@ == name@.subrange(at as int, i as int),
                decreases name.len() - i,
            {
                ext.push(name[i]);
                assert(name@.subrange(at as int, i + 1) =~= name@.subrange(
                    at as int,
                    i as int,
                ).push(name@[i as int]));
                i = i + 1;
            }
            ext
        },
        None => String::from_str("[no extension]"),
    }
}

/// The reported extension of a file name: its last `.` and what follows, in
/// the name's own case, or `[no extension]`.
pub fn get_file_extension(filename: &str) -> (ext: String)
    ensures
        ext@ == extension_text(filename@),
{
    let chars = chars_of_str(filename);
    extension_of_chars(chars.as_slice())
}

/// The category of a file name.
pub fn get_file_type(filename: &str) -> (kind: FileType)
    ensures
        kind == file_type_of(filename@),
{
    let chars = chars_of_str(filename);
    file_type_of_chars(chars.as_slice())
}

/// Lower-casing neither makes nor removes a `.`.
pub proof fn lemma_lower_keeps_dots(c: char)
    ensures
        (lower_char(c) == '.') == (c == '.'),
{
}

/// The category does not depend on the case of letters: two names that agree
/// once their capitals are lowered have the same category.
pub proof fn lemma_file_type_ignores_case(a: Seq<char>, b: Seq<char>)
    requires
        lower_seq(a) == lower_seq(b),
    ensures
        file_type_of(a) == file_type_of(b),
{
    assert(a.len() == lower_seq(a).len());
    assert(b.len() == lower_seq(b).len());
    assert forall|i: int| 0 <= i < a.len() implies ((a[i] == '.') == (b[i] == '.')) by {
        lemma_lower_keeps_dots(a[i]);
        lemma_lower_keeps_dots(b[i]);
        assert(lower_seq(a)[i] == lower_char(a[i]));
        assert(lower_seq(b)[i] == lower_char(b[i]));
    }
    if has_dot(a) {
        let i = choose|i: int| 0 <= i < a.len() && a[i] == '.';
        lemma_last_dot_exists(a, i);
        lemma_last_dot_exists(b, i);
        let la = last_dot(a);
        assert(is_last_dot(b, la));
        lemma_last_dot_unique(b, la, last_dot(b));
        let n = a.len() as int;
        assert forall|k: int| 0 <= k < n - (la + 1) implies #[trigger] lower_seq(
            a.subrange(la + 1, n),
        )[k] == lower_seq(b.subrange(la + 1, n))[k] by {
            assert(a.subrange(la + 1, n)[k] == a[la + 1 + k]);
            assert(b.subrange(la + 1, n)[k] == b[la + 1 + k]);
            assert(lower_seq(a)[la + 1 + k] == lower_char(a[la + 1 + k]));
            assert(lower_seq(b)[la + 1 + k] == lower_char(b[la + 1 + k]));
        }
        assert(lower_seq(a.subrange(la + 1, n)) =~= lower_seq(b.subrange(la + 1, n)));
    } else {
        if has_dot(b) {
            let i = choose|i: int| 0 <= i < b.len() && b[i] == '.';
            assert(a[i] == '.');
        }
    }
}

/// Lowering the capitals of a name does not change its category.
pub proof fn lemma_file_type_of_lowered(name: Seq<char>)
    ensures
        file_type_of(lower_seq(name)) == file_type_of(name),
{
    assert forall|c: char| lower_char(lower_char(c)) == lower_char(c) by {}
    assert(lower_seq(lower_seq(name)) =~= lower_seq(name));
    lemma_file_type_ignores_case(lower_seq(name), name);
}

/// Every extension under which a category is listed is made of ASCII
/// characters only: an extension that holds any other character is `Other`.
pub proof fn lemma_listed_extensions_are_ascii(ext: Seq<char>, i: int)
    requires
        0 <= i < ext.len(),
        ext[i] > '\u{7F}',
    ensures
        type_of_extension(ext) == FileType::Other,
{
    reveal_strlit("txt");
    reveal_strlit("doc");
    reveal_strlit("docx");
    reveal_strlit("pdf");
    reveal_strlit("rtf");
    reveal_strlit("odt");
    reveal_strlit("xls");
    reveal_strlit("xlsx");
    reveal_strlit("csv");
    reveal_strlit("ods");
    reveal_strlit("ppt");
    reveal_strlit("pptx");
    reveal_strlit("odp");
    reveal_strlit("jpg");
    reveal_strlit("jpeg");
    reveal_strlit("png");
    reveal_strlit("gif");
    reveal_strlit("bmp");
    reveal_strlit("svg");
    reveal_strlit("webp");
    reveal_strlit("ico");
    reveal_strlit("mp4");
    reveal_strlit("avi");
    reveal_strlit("mkv");
    reveal_strlit("mov");
    reveal_strlit("wmv");
    reveal_strlit("flv");
    reveal_strlit("webm");
    reveal_strlit("mp3");
    reveal_strlit("wav");
    reveal_strlit("flac");
    reveal_strlit("aac");
    reveal_strlit("ogg");
    reveal_strlit("wma");
    reveal_strlit("m4a");
    reveal_strlit("zip");
    reveal_strlit("rar");
    reveal_strlit("7z");
    reveal_strlit("tar");
    reveal_strlit("gz");
    reveal_strlit("bz2");
    reveal_strlit("rs");
    reveal_strlit("py");
    reveal_strlit("js");
    reveal_strlit("ts");
    reveal_strlit("java");
    reveal_strlit("cpp");
    reveal_strlit("c");
    reveal_strlit("h");
    reveal_strlit("cs");
    reveal_strlit("html");
    reveal_strlit("css");
    reveal_strlit("json");
    reveal_strlit("xml");
    reveal_strlit("yaml");
    reveal_strlit("yml");
    reveal_strlit("exe");
    reveal_strlit("dll");
    reveal_strlit("msi");
    reveal_strlit("bat");
    reveal_strlit("cmd");
    reveal_strlit("ps1");
    reveal_strlit("ini");
    reveal_strlit("cfg");
    reveal_strlit("conf");
    reveal_strlit("log");
    reveal_strlit("db");
    reveal_strlit("sqlite");
    reveal_strlit("mdb");
}

} // verus!
