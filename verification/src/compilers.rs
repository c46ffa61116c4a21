//! The container-side compile steps: the command that writes a source file
//! into a container, the compiler invocations of C, C++ and Java, the
//! cached artifact each leaves and the command that runs it.
use vstd::prelude::*;
use crate::text::views;

verus! {

/// A language compiled inside a container.
#[derive(Clone, Copy, Debug, PartialEq, Eq, Structural)]
pub enum CompiledLanguage {
    C,
    Cpp,
    Java,
}

/// The shell command that writes `code` to `filename` through a
/// here-document.
pub open spec fn write_source_command_spec(filename: Seq<char>, code: Seq<char>) -> Seq<Seq<char>> {
    seq!["sh"@, "-c"@, "cat <<'EOF' > "@ + filename + "\n"@ + code + "\nEOF"@]
}

/// The shell command that writes `code` to `filename` in a container.
pub fn write_source_command(filename: &str, code: &str) -> (r: Vec<String>)
    ensures
        views(r@) == write_source_command_spec(filename@, code@),
{
    let mut script = "cat <<'EOF' > ".to_owned();
    script.append(filename);
    script.append("\n");
    script.append(code);
    script.append("\nEOF");
    let mut r: Vec<String> = Vec::new();
    r.push("sh".to_owned());
    r.push("-c".to_owned());
    r.push(script);
    assert(views(r@) =~= write_source_command_spec(filename@, code@));
    r
}

/// The compiler invocation of a language on `filename`.
pub open spec fn compile_invocation_spec(language: CompiledLanguage, filename: Seq<char>) -> Seq<Seq<char>> {
    match language {
        CompiledLanguage::C => seq!["gcc"@, "-o"@, "main"@, filename],
        CompiledLanguage::Cpp => seq!["g++"@, "-o"@, "main"@, filename],
        CompiledLanguage::Java => seq!["javac"@, filename],
    }
}

/// The compiler invocation of a language on `filename`.
pub fn compile_invocation(language: CompiledLanguage, filename: &str) -> (r: Vec<String>)
    ensures
        views(r@) == compile_invocation_spec(language, filename@),
{
    let mut r: Vec<String> = Vec::new();
    match language {
        CompiledLanguage::C => {
            r.push("gcc".to_owned());
            r.push("-o".to_owned());
            r.push("main".to_owned());
        },
        CompiledLanguage::Cpp => {
            r.push("g++".to_owned());
            r.push("-o".to_owned());
            r.push("main".to_owned());
        },
        CompiledLanguage::Java => {
            r.push("javac".to_owned());
        },
    }
    r.push(filename.to_owned());
    assert(views(r@) =~= compile_invocation_spec(language, filename@));
    r
}

/// The command that runs a compiled artifact.
pub open spec fn artifact_run_command_spec(language: CompiledLanguage) -> Seq<Seq<char>> {
    match language {
        CompiledLanguage::C => seq!["./main"@],
        CompiledLanguage::Cpp => seq!["./main"@],
        CompiledLanguage::Java => seq!["java"@, "Main"@],
    }
}

/// The command that runs a compiled artifact.
pub fn artifact_run_command(language: CompiledLanguage) -> (r: Vec<String>)
    ensures
        views(r@) == artifact_run_command_spec(language),
{
    let mut r: Vec<String> = Vec::new();
    match language {
        CompiledLanguage::C | CompiledLanguage::Cpp => {
            r.push("./main".to_owned());
        },
        CompiledLanguage::Java => {
            r.push("java".to_owned());
            r.push("Main".to_owned());
        },
    }
    assert(views(r@) =~= artifact_run_command_spec(language));
    r
}

/// Where a language's artifact lives in the container's `/app/`
/// directory, and its file mode.
pub open spec fn artifact_entry_spec(language: CompiledLanguage) -> (Seq<char>, u32) {
    match language {
        CompiledLanguage::C => ("main"@, 0o755),
        CompiledLanguage::Cpp => ("main"@, 0o755),
        CompiledLanguage::Java => ("Main.class"@, 0o644),
    }
}

/// Where a language's artifact lives in the container, and its file mode.
pub fn artifact_entry(language: CompiledLanguage) -> (r: (String, u32))
    ensures
        (r.0@, r.1) == artifact_entry_spec(language),
{
    match language {
        CompiledLanguage::C | CompiledLanguage::Cpp => ("main".to_owned(), 0o755),
        CompiledLanguage::Java => ("Main.class".to_owned(), 0o644),
    }
}

/// What a compile step reports besides its time: the run command and no
/// error output when the compiler exited with zero, no command and the
/// compiler's error output otherwise.
pub fn compile_step_result(language: CompiledLanguage, exit_code: i64, compiler_stderr: Vec<u8>) -> (r: (Vec<String>, Vec<u8>))
    ensures
        exit_code == 0 ==> views(r.0@) == artifact_run_command_spec(language) && r.1@.len() == 0,
        exit_code != 0 ==> r.0@.len() == 0 && r.1 == compiler_stderr,
{
    if exit_code != 0 {
        (Vec::new(), compiler_stderr)
    } else {
        (artifact_run_command(language), Vec::new())
    }
}

/// The command that runs a script: the interpreter on the file.
pub fn script_run_command(interpreter: &str, filename: &str) -> (r: Vec<String>)
    ensures
        views(r@) == seq![interpreter@, filename@],
{
    let mut r: Vec<String> = Vec::new();
    r.push(interpreter.to_owned());
    r.push(filename.to_owned());
    assert(views(r@) =~= seq![interpreter@, filename@]);
    r
}

} // verus!
