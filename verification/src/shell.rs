//! How a configured command line is handed to the operating system.

use vstd::prelude::*;
use vstd::string::StringExecFns;

use crate::config::{issued_id, law_issued_ids_are_distinct};
use crate::text::{decimal, double_quotes};
use crate::text::{
    decimal_text, doubled_quotes, halved_quotes, law_doubled_quotes_are_read_back,
    lemma_decimal_injective,
};

verus! {

/// Process creation flag under which no console window is opened.
pub const CREATE_NO_WINDOW: u32 = 0x08000000;

/// How long a script file is kept after its process was set up, in milliseconds.
pub const SCRIPT_LIFETIME_MS: u64 = 1000;

/// The machine that a command is meant for.
#[derive(Clone, Copy, Debug, PartialEq, Eq, Structural)]
pub struct Host {
    /// Whether commands go through the Windows script host.
    pub windows: bool,
    /// A number that no other script file in use has, as `next_runtime_id` issues them.
    pub script_id: usize,
}

/// A script file that has to be written before the process is created.
#[derive(Debug)]
pub struct Script {
    /// The file's name in the directory for temporary files.
    pub file_name: String,
    /// The file's text.
    pub content: String,
    /// The flags that the process is created with.
    pub creation_flags: u32,
    /// When the file may be removed, in milliseconds from the moment it was written.
    pub remove_after_ms: u64,
}

/// A process to create.
#[derive(Debug)]
pub struct ShellCommand {
    /// The program that is run.
    pub program: String,
    /// Its arguments; the path of the script file, if there is one, follows them.
    pub args: Vec<String>,
    /// The script file that the program runs, if it runs one.
    pub script: Option<Script>,
}

/// The contents of a [`Script`].
pub struct ScriptView {
    pub file_name: Seq<char>,
    pub content: Seq<char>,
    pub creation_flags: u32,
    pub remove_after_ms: u64,
}

/// The contents of a [`ShellCommand`].
pub struct ShellCommandView {
    pub program: Seq<char>,
    pub args: Seq<Seq<char>>,
    pub script: Option<ScriptView>,
}

impl View for Script {
    type V = ScriptView;

    open spec fn view(&self) -> ScriptView {
        ScriptView {
            file_name: self.file_name@,
            content: self.content@,
            creation_flags: self.creation_flags,
            remove_after_ms: self.remove_after_ms,
        }
    }
}

impl View for ShellCommand {
    type V = ShellCommandView;

    open spec fn view(&self) -> ShellCommandView {
        ShellCommandView {
            program: self.program@,
            args: self.args@.map_values(|arg: String| arg@),
            script: match self.script {
                Some(script) => Some(script@),
                None => None,
            },
        }
    }
}

/// The name of the script file with a given number.
pub open spec fn script_name(script_id: usize) -> Seq<char> {
    "oh_tray_"@ + decimal_text(script_id as nat) + ".vbs"@
}

/// A script that runs a command in a hidden window and waits for it. The command stands in a
/// string literal of the script, so its quotes are doubled.
pub open spec fn script_content(cmd: Seq<char>) -> Seq<char> {
    "CreateObject(\"Wscript.Shell\").Run \"cmd /C "@ + doubled_quotes(cmd) + "\", 0, True"@
}

/// The process that runs a command on a host: `sh -c` with the command as it stands, or the
/// Windows script host on a script that holds the command.
pub open spec fn shell_command(cmd: Seq<char>, host: Host) -> ShellCommandView {
    if host.windows {
        ShellCommandView {
            program: "wscript.exe"@,
            args: seq![],
            script: Some(
                ScriptView {
                    file_name: script_name(host.script_id),
                    content: script_content(cmd),
                    creation_flags: CREATE_NO_WINDOW,
                    remove_after_ms: SCRIPT_LIFETIME_MS,
                },
            ),
        }
    } else {
        ShellCommandView { program: "sh"@, args: seq!["-c"@, cmd], script: None }
    }
}

/// The script of a command holds the command: behind the opening of its string literal and before
/// the closing, every pair of quotes read as one.
pub proof fn law_script_holds_the_command(cmd: Seq<char>)
    ensures
        ({
            let content = script_content(cmd);
            let opening = "CreateObject(\"Wscript.Shell\").Run \"cmd /C "@.len() as int;
            let closing = "\", 0, True"@.len() as int;
            halved_quotes(content.subrange(opening, content.len() - closing)) == cmd
        }),
{
    let opening = "CreateObject(\"Wscript.Shell\").Run \"cmd /C "@.len() as int;
    let closing = "\", 0, True"@.len() as int;
    let content = script_content(cmd);
    assert(content.subrange(opening, content.len() - closing) =~= doubled_quotes(cmd));
    law_doubled_quotes_are_read_back(cmd);
}

/// Scripts with different numbers have different file names.
pub proof fn law_script_names_are_distinct(m: usize, n: usize)
    requires
        script_name(m) == script_name(n),
    ensures
        m == n,
{
    let opening = "oh_tray_"@.len() as int;
    let closing = ".vbs"@.len() as int;
    let a = script_name(m);
    let b = script_name(n);
    assert(a.subrange(opening, a.len() - closing) =~= decimal_text(m as nat));
    assert(b.subrange(opening, b.len() - closing) =~= decimal_text(n as nat));
    lemma_decimal_injective(m as nat, n as nat);
}

/// Two commands, even equal ones, never share a script: numbers issued at different times give
/// different file names, so no script overwrites or removes that of another command. (A number
/// comes again only after all the others.)
pub proof fn law_scripts_do_not_collide(
    first: usize,
    i: nat,
    j: nat,
    cmd1: Seq<char>,
    cmd2: Seq<char>,
)
    requires
        i < j,
        j - i <= usize::MAX,
    ensures
        ({
            let one = shell_command(
                cmd1,
                (Host { windows: true, script_id: issued_id(first, i) }),
            );
            let two = shell_command(
                cmd2,
                (Host { windows: true, script_id: issued_id(first, j) }),
            );
            one.script->0.file_name != two.script->0.file_name
        }),
{
    law_issued_ids_are_distinct(first, i, j);
    if script_name(issued_id(first, i)) == script_name(issued_id(first, j)) {
        law_script_names_are_distinct(issued_id(first, i), issued_id(first, j));
    }
}

/// Sets up the process that runs a command line.
pub fn build_shell(cmd: &str, host: Host) -> (shell: ShellCommand)
    ensures
        shell@ == shell_command(cmd@, host),
        !host.windows ==> {
            &&& shell.program@ == "sh"@
            &&& shell.args@.len() == 2
            &&& shell.args@[0]@ == "-c"@
            &&& shell.args@[1]@ == cmd@
            &&& shell.script is None
        },
        host.windows ==> {
            &&& shell.program@ == "wscript.exe"@
            &&& shell.args@.len() == 0
            &&& shell.script matches Some(script) && {
                &&& script.file_name@ == "oh_tray_"@ + decimal_text(host.script_id as nat)
                    + ".vbs"@
                &&& script.content@ == "CreateObject(\"Wscript.Shell\").Run \"cmd /C "@
                    + doubled_quotes(cmd@) + "\", 0, True"@
                &&& script.creation_flags == 0x08000000
                &&& script.remove_after_ms == 1000
            }
        },
{
    if host.windows {
        let mut file_name = "oh_tray_".to_owned();
        file_name.append(decimal(host.script_id).as_str());
        file_name.append(".vbs");
        let mut content = "CreateObject(\"Wscript.Shell\").Run \"cmd /C ".to_owned();
        content.append(double_quotes(cmd).as_str());
        content.append("\", 0, True");
        let script = Script {
            file_name,
            content,
            creation_flags: CREATE_NO_WINDOW,
            remove_after_ms: SCRIPT_LIFETIME_MS,
        };
        let shell = ShellCommand {
            program: "wscript.exe".to_owned(),
            args: Vec::new(),
            script: Some(script),
        };
        proof {
            assert(shell@.args =~= seq![]);
        }
        shell
    } else {
        let mut args: Vec<String> = Vec::new();
        args.push("-c".to_owned());
        args.push(cmd.to_owned());
        let shell = ShellCommand { program: "sh".to_owned(), args, script: None };
        proof {
            assert(shell@.args =~= seq!["-c"@, cmd@]);
        }
        shell
    }
}

} // verus!
