//! Programs to start, and how each desktop opens files and folders.

use vstd::prelude::*;

use crate::text;

verus! {

/// The kinds of desktop.
#[derive(Clone, Copy, PartialEq, Eq, Structural, Debug)]
pub enum Desktop {
    Windows,
    Macos,
    Linux,
    Other,
}

/// A value handed to a program: a text, or the path of the file that the launch is about.
pub enum Argument {
    Text(String),
    File,
}

/// What an argument holds.
pub enum ArgumentView {
    Text(Seq<char>),
    File,
}

impl View for Argument {
    type V = ArgumentView;

    open spec fn view(&self) -> ArgumentView {
        match self {
            Argument::Text(t) => ArgumentView::Text(t@),
            Argument::File => ArgumentView::File,
        }
    }
}

/// A variable of the environment in which a program runs.
pub struct Variable {
    pub name: String,
    pub value: Argument,
}

/// A program to start, with its arguments and what is added to its environment.
pub struct Launch {
    pub program: String,
    pub args: Vec<Argument>,
    pub env: Vec<Variable>,
}

/// What a launch holds.
#[verifier::ext_equal]
pub struct LaunchView {
    pub program: Seq<char>,
    pub args: Seq<ArgumentView>,
    pub env: Seq<(Seq<char>, ArgumentView)>,
}

impl View for Launch {
    type V = LaunchView;

    open spec fn view(&self) -> LaunchView {
        LaunchView {
            program: self.program@,
            args: self.args@.map_values(|a: Argument| a@),
            env: self.env@.map_values(|v: Variable| (v.name@, v.value@)),
        }
    }
}

/// A text handed to a program.
pub fn text_argument(value: &str) -> (argument: Argument)
    ensures
        argument@ == ArgumentView::Text(value@),
{
    Argument::Text(text::copy_text(value))
}

/// A variable of the environment.
pub fn variable(name: &str, value: Argument) -> (result: Variable)
    ensures
        result.name@ == name@,
        result.value == value,
{
    Variable { name: text::copy_text(name), value }
}

/// The launch of `program` with the file as its last argument, behind `options`.
pub open spec fn opens_with(program: Seq<char>, options: Seq<ArgumentView>) -> LaunchView {
    LaunchView { program, args: options.push(ArgumentView::File), env: Seq::empty() }
}

/// What opens a text file for reading on each desktop.
pub open spec fn editor_of(desktop: Desktop) -> LaunchView {
    match desktop {
        Desktop::Windows => opens_with("notepad"@, Seq::empty()),
        Desktop::Macos => opens_with("open"@, seq![ArgumentView::Text("-t"@)]),
        _ => opens_with("xdg-open"@, Seq::empty()),
    }
}

/// What opens a text file for reading.
pub fn open_in_editor(desktop: Desktop) -> (launch: Launch)
    ensures
        launch@ == editor_of(desktop),
{
    let mut args: Vec<Argument> = Vec::new();
    let program = match desktop {
        Desktop::Windows => text::copy_text("notepad"),
        Desktop::Macos => {
            args.push(text_argument("-t"));
            text::copy_text("open")
        },
        _ => text::copy_text("xdg-open"),
    };
    args.push(Argument::File);
    let launch = Launch { program, args, env: Vec::new() };
    proof {
        assert(launch@.args =~= editor_of(desktop).args);
        assert(launch@.env =~= editor_of(desktop).env);
    }
    launch
}

/// What shows a folder on each desktop.
pub open spec fn folder_viewer_of(desktop: Desktop) -> LaunchView {
    match desktop {
        Desktop::Windows => opens_with("explorer"@, Seq::empty()),
        Desktop::Macos => opens_with("open"@, Seq::empty()),
        _ => opens_with("xdg-open"@, Seq::empty()),
    }
}

/// What shows a folder.
pub fn open_data_folder(desktop: Desktop) -> (launch: Launch)
    ensures
        launch@ == folder_viewer_of(desktop),
{
    let program = match desktop {
        Desktop::Windows => text::copy_text("explorer"),
        Desktop::Macos => text::copy_text("open"),
        _ => text::copy_text("xdg-open"),
    };
    let mut args: Vec<Argument> = Vec::new();
    args.push(Argument::File);
    let launch = Launch { program, args, env: Vec::new() };
    proof {
        assert(launch@.args =~= folder_viewer_of(desktop).args);
        assert(launch@.env =~= folder_viewer_of(desktop).env);
    }
    launch
}

/// Whatever the desktop, the file or the folder is handed over as the last
/// argument, to the program that the desktop has for it.
pub proof fn files_are_handed_over(desktop: Desktop)
    ensures
        editor_of(desktop).args.len() > 0,
        editor_of(desktop).args.last() is File,
        folder_viewer_of(desktop).args.len() == 1,
        folder_viewer_of(desktop).args.last() is File,
        editor_of(desktop).env.len() == 0,
        folder_viewer_of(desktop).env.len() == 0,
        desktop == Desktop::Windows ==> editor_of(desktop).program == "notepad"@
            && folder_viewer_of(desktop).program == "explorer"@ && editor_of(desktop).args.len()
            == 1,
        desktop == Desktop::Macos ==> editor_of(desktop).program == "open"@ && folder_viewer_of(
            desktop,
        ).program == "open"@ && editor_of(desktop).args == seq![
            ArgumentView::Text("-t"@),
            ArgumentView::File,
        ],
        desktop == Desktop::Linux || desktop == Desktop::Other ==> editor_of(desktop).program
            == "xdg-open"@ && folder_viewer_of(desktop).program == "xdg-open"@ && editor_of(
            desktop,
        ).args.len() == 1,
{
    if desktop == Desktop::Macos {
        assert(editor_of(desktop).args =~= seq![ArgumentView::Text("-t"@), ArgumentView::File]);
    }
}

} // verus!
