//! How a notification is handed to each desktop.

use vstd::prelude::*;

use crate::launch;
use crate::launch::{Argument, ArgumentView, Desktop, Launch, LaunchView, Variable};
use crate::text;

verus! {

// ---------------------------------------------------------------------------
// AppleScript texts

/// A character as it stands in a quoted AppleScript text.
pub open spec fn escape_char(c: char) -> Seq<char> {
    if c == '\\' || c == '"' {
        seq!['\\', c]
    } else {
        seq![c]
    }
}

/// `s` as it stands in a quoted AppleScript text.
pub open spec fn escaped(s: Seq<char>) -> Seq<char>
    decreases s.len(),
{
    if s.len() == 0 {
        Seq::empty()
    } else {
        escape_char(s[0]) + escaped(s.skip(1))
    }
}

/// `value` as it stands in a quoted AppleScript text.
pub fn escape_applescript(value: &str) -> (result: String)
    ensures
        result@ == escaped(value@),
{
    let chars = text::chars_of(value);
    let mut result = String::new();
    let mut i: usize = 0;
    proof {
        assert(chars@.skip(0) =~= chars@);
        assert(result@ + escaped(chars@) =~= escaped(chars@));
    }
    while i < chars.len()
        invariant
            i <= chars@.len(),
            chars@ == value@,
            result@ + escaped(chars@.skip(i as int)) == escaped(value@),
        decreases chars@.len() - i,
    {
        let ghost before = result@;
        let c = chars[i];
        if c == '\\' || c == '"' {
            result.push('\\');
        }
        result.push(c);
        proof {
            let rest = chars@.skip(i as int);
            assert(rest.skip(1) =~= chars@.skip(i + 1));
            assert(result@ =~= before + escape_char(c));
            assert(result@ + escaped(chars@.skip(i + 1)) =~= before + escaped(rest));
        }
        i += 1;
    }
    proof {
        assert(chars@.skip(i as int) =~= Seq::<char>::empty());
        assert(result@ =~= escaped(value@));
    }
    result
}

/// The text that a quoted AppleScript text stands for, read up to its closing
/// quote: a backslash takes the next character as it is. `None` where the
/// quote comes before the end or a backslash ends the text.
pub open spec fn unescaped(s: Seq<char>) -> Option<Seq<char>>
    decreases s.len(),
{
    if s.len() == 0 {
        Some(Seq::empty())
    } else if s[0] == '"' {
        None
    } else if s[0] == '\\' {
        if s.len() == 1 {
            None
        } else {
            match unescaped(s.skip(2)) {
                Some(rest) => Some(seq![s[1]] + rest),
                None => None,
            }
        }
    } else {
        match unescaped(s.skip(1)) {
            Some(rest) => Some(seq![s[0]] + rest),
            None => None,
        }
    }
}

/// An escaped text stands for the text it was made from; no quote in it ends it early.
pub proof fn escaped_text_reads_back(s: Seq<char>)
    ensures
        unescaped(escaped(s)) == Some(s),
    decreases s.len(),
{
    if s.len() > 0 {
        escaped_text_reads_back(s.skip(1));
        let all = escaped(s);
        let head = escape_char(s[0]);
        assert(all == head + escaped(s.skip(1)));
        assert(all.skip(head.len() as int) =~= escaped(s.skip(1)));
        assert(seq![s[0]] + s.skip(1) =~= s);
        if s[0] == '\\' || s[0] == '"' {
            assert(all[0] == '\\' && all[1] == s[0]);
        } else {
            assert(all[0] == s[0]);
        }
    } else {
        assert(s =~= Seq::<char>::empty());
    }
}

// ---------------------------------------------------------------------------
// Commands

/// The PowerShell script that shows a notification; what it says comes from its environment.
pub const TOAST_SCRIPT: &'static str = r#"
$appId = 'DeskTodo.Reminder'
$key = "HKCU:\Software\Classes\AppUserModelId\$appId"
if (-not (Test-Path $key)) { New-Item -Path $key -Force | Out-Null }
New-ItemProperty -Path $key -Name 'DisplayName' -Value 'deskTodo' -PropertyType String -Force | Out-Null
if ($env:DESKTODO_ICON) {
    try {
        $iconUri = ([Uri]::new($env:DESKTODO_ICON)).AbsoluteUri
        New-ItemProperty -Path $key -Name 'IconUri' -Value $iconUri -PropertyType String -Force | Out-Null
    } catch { }
}
[Windows.UI.Notifications.ToastNotificationManager, Windows.UI.Notifications, ContentType=WindowsRuntime] | Out-Null
[Windows.Data.Xml.Dom.XmlDocument, Windows.Data.Xml.Dom, ContentType=WindowsRuntime] | Out-Null
$template = [Windows.UI.Notifications.ToastNotificationManager]::GetTemplateContent([Windows.UI.Notifications.ToastTemplateType]::ToastText02)
$texts = $template.GetElementsByTagName('text')
[void]$texts.Item(0).AppendChild($template.CreateTextNode($env:DESKTODO_TITLE))
[void]$texts.Item(1).AppendChild($template.CreateTextNode($env:DESKTODO_BODY))
$toast = [Windows.UI.Notifications.ToastNotification]::new($template)
[Windows.UI.Notifications.ToastNotificationManager]::CreateToastNotifier($appId).Show($toast)
"#;

/// The AppleScript that shows a notification.
pub open spec fn applescript(title: Seq<char>, body: Seq<char>) -> Seq<char> {
    "display notification \""@ + escaped(body) + "\" with title \""@ + escaped(title) + "\""@
}

/// The launch that shows a notification on each desktop, none where there is no way to do so.
pub open spec fn launch_for(
    desktop: Desktop,
    title: Seq<char>,
    body: Seq<char>,
    has_icon: bool,
) -> Option<LaunchView> {
    match desktop {
        Desktop::Windows => Some(
            LaunchView {
                program: "powershell"@,
                args: seq![
                    ArgumentView::Text("-NoProfile"@),
                    ArgumentView::Text("-NonInteractive"@),
                    ArgumentView::Text("-ExecutionPolicy"@),
                    ArgumentView::Text("Bypass"@),
                    ArgumentView::Text("-Command"@),
                    ArgumentView::Text(TOAST_SCRIPT@),
                ],
                env: seq![
                    ("DESKTODO_TITLE"@, ArgumentView::Text(title)),
                    ("DESKTODO_BODY"@, ArgumentView::Text(body)),
                ] + if has_icon {
                    seq![("DESKTODO_ICON"@, ArgumentView::File)]
                } else {
                    Seq::empty()
                },
            },
        ),
        Desktop::Linux => Some(
            LaunchView {
                program: "notify-send"@,
                args: seq![
                    ArgumentView::Text("-a"@),
                    ArgumentView::Text("deskTodo"@),
                    ArgumentView::Text("-t"@),
                    ArgumentView::Text("10000"@),
                ] + (if has_icon {
                    seq![ArgumentView::Text("-i"@), ArgumentView::File]
                } else {
                    Seq::empty()
                }) + seq![ArgumentView::Text(title), ArgumentView::Text(body)],
                env: Seq::empty(),
            },
        ),
        Desktop::Macos => Some(
            LaunchView {
                program: "osascript"@,
                args: seq![
                    ArgumentView::Text("-e"@),
                    ArgumentView::Text(applescript(title, body)),
                ],
                env: Seq::empty(),
            },
        ),
        Desktop::Other => None,
    }
}

/// What to start so that a notification is shown. The icon is the file that
/// the launch is about; `has_icon` says whether there is a file for it.
pub fn send_notification(desktop: Desktop, title: &str, body: &str, has_icon: bool) -> (launch:
    Option<Launch>)
    ensures
        match launch {
            Some(l) => launch_for(desktop, title@, body@, has_icon) == Some(l@),
            None => launch_for(desktop, title@, body@, has_icon) is None,
        },
{
    let mut args: Vec<Argument> = Vec::new();
    let mut env: Vec<Variable> = Vec::new();
    let launch = match desktop {
        Desktop::Windows => {
            args.push(launch::text_argument("-NoProfile"));
            args.push(launch::text_argument("-NonInteractive"));
            args.push(launch::text_argument("-ExecutionPolicy"));
            args.push(launch::text_argument("Bypass"));
            args.push(launch::text_argument("-Command"));
            args.push(launch::text_argument(TOAST_SCRIPT));
            env.push(launch::variable("DESKTODO_TITLE", launch::text_argument(title)));
            env.push(launch::variable("DESKTODO_BODY", launch::text_argument(body)));
            if has_icon {
                env.push(launch::variable("DESKTODO_ICON", Argument::File));
            }
            Launch { program: text::copy_text("powershell"), args, env }
        },
        Desktop::Linux => {
            args.push(launch::text_argument("-a"));
            args.push(launch::text_argument("deskTodo"));
            args.push(launch::text_argument("-t"));
            args.push(launch::text_argument("10000"));
            if has_icon {
                args.push(launch::text_argument("-i"));
                args.push(Argument::File);
            }
            args.push(launch::text_argument(title));
            args.push(launch::text_argument(body));
            Launch { program: text::copy_text("notify-send"), args, env }
        },
        Desktop::Macos => {
            let mut script = text::copy_text("display notification \"");
            text::push_text(&mut script, escape_applescript(body).as_str());
            text::push_text(&mut script, "\" with title \"");
            text::push_text(&mut script, escape_applescript(title).as_str());
            text::push_text(&mut script, "\"");
            args.push(launch::text_argument("-e"));
            args.push(Argument::Text(script));
            Launch { program: text::copy_text("osascript"), args, env }
        },
        Desktop::Other => {
            return None;
        },
    };
    proof {
        let expected = launch_for(desktop, title@, body@, has_icon)->0;
        assert(launch@.args =~= expected.args);
        assert(launch@.env =~= expected.env);
    }
    Some(launch)
}

/// A quote and a backslash get a backslash before them; nothing else changes.
pub proof fn only_quotes_and_backslashes_are_escaped(s: Seq<char>, c: char)
    ensures
        escaped(Seq::<char>::empty()).len() == 0,
        c == '"' || c == '\\' ==> escaped(s.push(c)) == escaped(s) + seq!['\\', c],
        c != '"' && c != '\\' ==> escaped(s.push(c)) == escaped(s) + seq![c],
    decreases s.len(),
{
    let t = s.push(c);
    if s.len() == 0 {
        assert(t.skip(1) =~= Seq::<char>::empty());
        assert(t[0] == c);
        assert(escaped(t.skip(1)).len() == 0);
        assert(escaped(t) == escape_char(c) + escaped(t.skip(1)));
        assert(escaped(t) =~= escaped(s) + escape_char(c));
    } else {
        only_quotes_and_backslashes_are_escaped(s.skip(1), c);
        assert(t.skip(1) =~= s.skip(1).push(c));
        assert(t[0] == s[0]);
        assert(escaped(t) =~= escaped(s) + escape_char(c));
    }
}

/// Whatever the desktop, title and body of a notification are handed over whole:
/// as the last two arguments, in the environment, or quoted in a script.
pub proof fn notifications_say_it_all(title: Seq<char>, body: Seq<char>, has_icon: bool)
    ensures
        ({
            let linux = launch_for(Desktop::Linux, title, body, has_icon)->0;
            let windows = launch_for(Desktop::Windows, title, body, has_icon)->0;
            let macos = launch_for(Desktop::Macos, title, body, has_icon)->0;
            let n = linux.args.len();
            &&& launch_for(Desktop::Linux, title, body, has_icon) is Some
            &&& launch_for(Desktop::Windows, title, body, has_icon) is Some
            &&& launch_for(Desktop::Macos, title, body, has_icon) is Some
            &&& launch_for(Desktop::Other, title, body, has_icon) is None
            &&& linux.program == "notify-send"@
            &&& n >= 2
            &&& linux.args[n - 2] == ArgumentView::Text(title)
            &&& linux.args[n - 1] == ArgumentView::Text(body)
            &&& has_icon ==> n == 8 && linux.args[n - 4] == ArgumentView::Text("-i"@)
                && linux.args[n - 3] == ArgumentView::File
            &&& !has_icon ==> n == 6
            &&& linux.args.take(4) == seq![
                ArgumentView::Text("-a"@),
                ArgumentView::Text("deskTodo"@),
                ArgumentView::Text("-t"@),
                ArgumentView::Text("10000"@),
            ]
            &&& linux.env.len() == 0
            &&& windows.program == "powershell"@
            &&& windows.args.len() == 6
            &&& windows.args[4] == ArgumentView::Text("-Command"@)
            &&& windows.args[5] == ArgumentView::Text(TOAST_SCRIPT@)
            &&& windows.env[0] == ("DESKTODO_TITLE"@, ArgumentView::Text(title))
            &&& windows.env[1] == ("DESKTODO_BODY"@, ArgumentView::Text(body))
            &&& has_icon ==> windows.env.len() == 3 && windows.env[2] == (
                "DESKTODO_ICON"@,
                ArgumentView::File,
            )
            &&& !has_icon ==> windows.env.len() == 2
            &&& macos.program == "osascript"@
            &&& macos.args == seq![
                ArgumentView::Text("-e"@),
                ArgumentView::Text(
                    "display notification \""@ + escaped(body) + "\" with title \""@ + escaped(
                        title,
                    ) + "\""@,
                ),
            ]
        }),
{
    let linux = launch_for(Desktop::Linux, title, body, has_icon)->0;
    assert(linux.args.take(4) =~= seq![
        ArgumentView::Text("-a"@),
        ArgumentView::Text("deskTodo"@),
        ArgumentView::Text("-t"@),
        ArgumentView::Text("10000"@),
    ]);
}

} // verus!
