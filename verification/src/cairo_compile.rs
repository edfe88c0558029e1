//! What is computed around the compilers of contract sources: which
//! compiler version a workspace manifest asks for, and the arguments a
//! compiler is run with. Running a compiler is left to the caller.

use vstd::prelude::*;
use vstd::string::*;

verus! {

/// The value of a dependency in a manifest: a plain version, or a table
/// with a version in it.
#[derive(Clone, Debug, PartialEq, Eq)]
pub enum DependencyValue {
    /// `cairo-lang-casm = "x.y.z"`.
    String(String),
    /// `cairo-lang-casm = { version = "x.y.z", .. }`.
    Object { version: String },
}

impl DependencyValue {
    /// The version the dependency asks for.
    pub open spec fn spec_version(self) -> String {
        match self {
            DependencyValue::String(version) => version,
            DependencyValue::Object { version } => version,
        }
    }

    /// The version the dependency asks for.
    pub fn version(&self) -> (r: String)
        ensures
            r == self.spec_version(),
    {
        match self {
            DependencyValue::String(version) => version.clone(),
            DependencyValue::Object { version } => version.clone(),
        }
    }
}

/// The dependencies of a workspace, as far as they are read.
#[derive(Clone, Debug, PartialEq, Eq)]
pub struct CairoLangCasmDependency {
    pub cairo_lang_casm: DependencyValue,
}

/// The workspace table of a manifest, as far as it is read.
#[derive(Clone, Debug, PartialEq, Eq)]
pub struct WorkspaceFields {
    pub dependencies: CairoLangCasmDependency,
}

/// A workspace manifest, as far as it is read.
#[derive(Clone, Debug, PartialEq, Eq)]
pub struct CargoToml {
    pub workspace: WorkspaceFields,
}

/// The version of the compiler that the manifest asks for: the version of
/// its `cairo-lang-casm` dependency, all compiler crates sharing one
/// version.
pub fn cairo1_compiler_version(cargo_toml: &CargoToml) -> (r: String)
    ensures
        r == cargo_toml.workspace.dependencies.cairo_lang_casm.spec_version(),
{
    cargo_toml.workspace.dependencies.cairo_lang_casm.version()
}

/// The name of the compiler for legacy sources.
pub open spec fn spec_cairo0_compiler() -> Seq<char> {
    "starknet-compile-deprecated"@
}

/// The name of the compiler for legacy sources.
pub fn cairo0_compiler() -> (r: &'static str)
    ensures
        r@ == spec_cairo0_compiler(),
{
    "starknet-compile-deprecated"
}

/// The arguments of a run of the compiler for legacy sources: the path,
/// then the extra argument if there is one, then `--no_debug_info` unless
/// debug information is asked for.
pub open spec fn spec_cairo0_compile_args(
    path: Seq<char>,
    extra_arg: Option<Seq<char>>,
    debug_info: bool,
) -> Seq<Seq<char>> {
    let with_extra = match extra_arg {
        Some(extra) => seq![path, extra],
        None => seq![path],
    };
    if debug_info {
        with_extra
    } else {
        with_extra.push("--no_debug_info"@)
    }
}

/// The arguments of a run of the compiler for legacy sources.
pub fn cairo0_compile_args(path: String, extra_arg: Option<String>, debug_info: bool) -> (r: Vec<
    String,
>)
    ensures
        r@.map_values(|s: String| s@) == spec_cairo0_compile_args(
            path@,
            match extra_arg {
                Some(extra) => Some(extra@),
                None => None,
            },
            debug_info,
        ),
{
    let ghost path_text = path@;
    let mut args: Vec<String> = Vec::new();
    args.push(path);
    match extra_arg {
        Some(extra) => {
            args.push(extra);
        },
        None => {},
    }
    if !debug_info {
        args.push(String::from_str("--no_debug_info"));
    }
    proof {
        assert(args@.map_values(|s: String| s@) =~= spec_cairo0_compile_args(
            path_text,
            match extra_arg {
                Some(extra) => Some(extra@),
                None => None,
            },
            debug_info,
        ));
    }
    args
}

/// Why a source could not be compiled.
#[derive(Clone, Copy, Debug, PartialEq, Eq, Structural)]
pub enum CompileError {
    /// No compiler for the source's language is at hand.
    CompilerUnavailable,
}

/// Compiles a source in the current language. No compiler for it is at
/// hand: every path is answered with `CompilerUnavailable`.
pub fn cairo1_compile(_path: String) -> (r: Result<Vec<u8>, CompileError>)
    ensures
        r == Err::<Vec<u8>, CompileError>(CompileError::CompilerUnavailable),
{
    Err(CompileError::CompilerUnavailable)
}

/// The file that lists the packages the compiler for legacy sources
/// needs.
pub open spec fn spec_requirements_file() -> Seq<char> {
    "tests/requirements.txt"@
}

/// The file that lists the packages the compiler for legacy sources
/// needs.
pub fn requirements_file() -> (r: &'static str)
    ensures
        r@ == spec_requirements_file(),
{
    "tests/requirements.txt"
}

/// The position of the first line feed at or after `from`, or the length
/// of the text when there is none.
pub open spec fn spec_first_newline(text: Seq<char>, from: int) -> int
    decreases text.len() - from,
{
    if from < 0 || from >= text.len() {
        text.len() as int
    } else if text[from] == '\n' {
        from
    } else {
        spec_first_newline(text, from + 1)
    }
}

/// The second line of a text, if it has one. Lines end at a line feed; a
/// carriage return right before the line feed belongs to the line ending.
pub open spec fn spec_second_line(text: Seq<char>) -> Option<Seq<char>> {
    let start = spec_first_newline(text, 0) + 1;
    if start >= text.len() {
        None
    } else {
        let end = spec_first_newline(text, start);
        let line_end = if end < text.len() && end > start && text[end - 1] == '\r' {
            end - 1
        } else {
            end
        };
        Some(text.subrange(start, line_end))
    }
}

fn first_newline(text: &str, from: usize) -> (r: usize)
    requires
        from <= text@.len(),
    ensures
        r == spec_first_newline(text@, from as int),
        from <= r <= text@.len(),
{
    let len = text.unicode_len();
    let mut i: usize = from;
    while i < len && text.get_char(i) != '\n'
        invariant
            from <= i <= len,
            len == text@.len(),
            spec_first_newline(text@, from as int) == spec_first_newline(text@, i as int),
        decreases len - i,
    {
        i += 1;
    }
    i
}

/// The second line of a text, if it has one.
pub fn second_line(text: &str) -> (r: Option<String>)
    ensures
        match spec_second_line(text@) {
            Some(line) => r matches Some(found) && found@ == line,
            None => r is None,
        },
{
    let len = text.unicode_len();
    let end0 = first_newline(text, 0);
    if end0 >= len || end0 + 1 >= len {
        return None;
    }
    let start = end0 + 1;
    let end = first_newline(text, start);
    let line_end = if end < len && end > start && text.get_char(end - 1) == '\r' {
        end - 1
    } else {
        end
    };
    Some(String::from_str(text.substring_char(start, line_end)))
}

/// Whether a character is white space as Unicode defines it: the
/// characters with the property `White_Space`.
pub open spec fn spec_is_white_space(c: char) -> bool {
    let n = c as u32;
    ||| 0x09 <= n <= 0x0d
    ||| n == 0x20
    ||| n == 0x85
    ||| n == 0xa0
    ||| n == 0x1680
    ||| 0x2000 <= n <= 0x200a
    ||| n == 0x2028
    ||| n == 0x2029
    ||| n == 0x202f
    ||| n == 0x205f
    ||| n == 0x3000
}

/// The text without the white space at its start.
pub open spec fn spec_trim_start(text: Seq<char>) -> Seq<char>
    decreases text.len(),
{
    if text.len() > 0 && spec_is_white_space(text[0]) {
        spec_trim_start(text.subrange(1, text.len() as int))
    } else {
        text
    }
}

/// The text without the white space at its end.
pub open spec fn spec_trim_end(text: Seq<char>) -> Seq<char>
    decreases text.len(),
{
    if text.len() > 0 && spec_is_white_space(text.last()) {
        spec_trim_end(text.drop_last())
    } else {
        text
    }
}

/// The text without the white space at its start and at its end.
pub open spec fn spec_trim(text: Seq<char>) -> Seq<char> {
    spec_trim_end(spec_trim_start(text))
}

/// `str::trim`: the text without the white space at its start and at its
/// end, white space being what Unicode defines as such. The claim is that
/// the standard library takes off exactly the characters of
/// `spec_is_white_space`, and no others, from both ends.
#[verifier::external_body]
fn trim(text: &str) -> (r: String)
    ensures
        r@ == spec_trim(text@),
{
    text.trim().to_string()
}

/// What is said where the requirements file has no second line.
pub open spec fn spec_missing_version_message() -> Seq<char> {
    "Expecting requirements file to contain a docstring in the first line, and then the \
    required cairo-lang version in the second line."@
}

/// What is said where the installed version is not the required one.
pub open spec fn spec_version_mismatch_message(
    installed: Seq<char>,
    expected: Seq<char>,
    manifest_dir: Seq<char>,
) -> Seq<char> {
    "cairo-lang version "@ + expected + " not found ("@ + (if installed.len() == 0 {
        "no installed cairo-lang found"@
    } else {
        "installed version: "@ + installed
    }) + "). Please run:\npip3.9 install -r "@ + manifest_dir + "/"@ + spec_requirements_file()
        + "\nthen rerun the test."@
}

/// Holds the installed version against the required one, both trimmed:
/// `Ok` when they are the same text, else what to tell the user.
pub open spec fn spec_compare_cairo_lang_versions(
    installed: Seq<char>,
    expected: Seq<char>,
    manifest_dir: Seq<char>,
) -> Result<(), Seq<char>> {
    if installed == expected {
        Ok(())
    } else {
        Err(spec_version_mismatch_message(installed, expected, manifest_dir))
    }
}

/// Holds the installed version against the required one, both trimmed.
pub fn compare_cairo_lang_versions(installed: &str, expected: &str, manifest_dir: &str) -> (r: Result<
    (),
    String,
>)
    ensures
        match spec_compare_cairo_lang_versions(installed@, expected@, manifest_dir@) {
            Ok(()) => r is Ok,
            Err(text) => r matches Err(message) && message@ == text,
        },
{
    let same = String::from_str(installed) == String::from_str(expected);
    if same {
        return Ok(());
    }
    let mut message = String::from_str("cairo-lang version ");
    message.append(expected);
    message.append(" not found (");
    if installed.unicode_len() == 0 {
        message.append("no installed cairo-lang found");
    } else {
        message.append("installed version: ");
        message.append(installed);
    }
    message.append("). Please run:\npip3.9 install -r ");
    message.append(manifest_dir);
    message.append("/");
    message.append(requirements_file());
    message.append("\nthen rerun the test.");
    proof {
        assert(message@ =~= spec_version_mismatch_message(installed@, expected@, manifest_dir@));
    }
    Err(message)
}

/// Whether the compiler for legacy sources can be run: `Ok` when the
/// installed version, trimmed, is the one on the second line of the
/// requirements file, trimmed; else what to tell the user.
pub open spec fn spec_verify_cairo0_compiler_deps(
    installed_output: Seq<char>,
    requirements_contents: Seq<char>,
    manifest_dir: Seq<char>,
) -> Result<(), Seq<char>> {
    match spec_second_line(requirements_contents) {
        None => Err(spec_missing_version_message()),
        Some(line) => spec_compare_cairo_lang_versions(
            spec_trim(installed_output),
            spec_trim(line),
            manifest_dir,
        ),
    }
}

/// Checks whether the installed compiler for legacy sources is the
/// required one. `installed_output` is what the package manager lists for
/// the compiler; `requirements_contents` is the requirements file, whose
/// second line names the required version. Where it is not the required
/// one, the result is what to tell the user.
pub fn check_cairo0_compiler_deps(
    installed_output: &str,
    requirements_contents: &str,
    manifest_dir: &str,
) -> (r: Result<(), String>)
    ensures
        match spec_verify_cairo0_compiler_deps(
            installed_output@,
            requirements_contents@,
            manifest_dir@,
        ) {
            Ok(()) => r is Ok,
            Err(text) => r matches Err(message) && message@ == text,
        },
{
    let installed = trim(installed_output);
    let line = match second_line(requirements_contents) {
        Some(l) => l,
        None => {
            return Err(
                String::from_str(
                    "Expecting requirements file to contain a docstring in the first line, and then the \
    required cairo-lang version in the second line.",
                ),
            );
        },
    };
    let expected = trim(line.as_str());
    compare_cairo_lang_versions(installed.as_str(), expected.as_str(), manifest_dir)
}

/// Goes on only with the required compiler for legacy sources installed:
/// the caller shows that the installed version is the required one. A
/// caller that cannot show it asks `check_cairo0_compiler_deps` first.
pub fn verify_cairo0_compiler_deps(
    installed_output: &str,
    requirements_contents: &str,
    manifest_dir: &str,
)
    requires
        spec_verify_cairo0_compiler_deps(
            installed_output@,
            requirements_contents@,
            manifest_dir@,
        ) is Ok,
{
    let checked = check_cairo0_compiler_deps(installed_output, requirements_contents, manifest_dir);
    assert(checked is Ok);
}

/// What a run of the compiler for legacy sources comes to: what it wrote
/// to its output where it succeeded, else what it wrote to its error
/// stream, as the message of the failure.
pub fn cairo0_compile_result(success: bool, stdout: Vec<u8>, stderr_output: String) -> (r: Result<
    Vec<u8>,
    String,
>)
    ensures
        r == if success {
            Ok::<Vec<u8>, String>(stdout)
        } else {
            Err::<Vec<u8>, String>(stderr_output)
        },
{
    if success {
        Ok(stdout)
    } else {
        Err(stderr_output)
    }
}

} // verus!
