//! The commands of the `yuniye` tool, and the two texts that it prints
//! about itself: its version line and its help page. Both are set in
//! colour where the terminal takes colour.

use vstd::prelude::*;
use vstd::string::*;
use colored::{Color, Colorize};

verus! {

/// What the tool is asked to do.
#[derive(Debug)]
pub enum Command {
    Interactive,
    Run(String),
    Explain(String),
    New(String),
    AddSync,
    Remove,
    Build,
    Clean(String),
    Help,
}

/// A colour of the terminal.
#[derive(Clone, Copy, Debug, PartialEq, Eq, Structural)]
pub enum Tint {
    Green,
    Yellow,
    Cyan,
    Magenta,
    White,
}

/// The version of the language.
pub const VERSION: &'static str = "0.1.0";

/// The last tagged commit.
pub const LAST_COMMIT_ID: &'static str = "e1d3b9a";

/// The kind of release: Experimental, Beta, Nightly or Stable.
pub const RELEASE_TYPE: &'static str = "Experimental";

/// The name of the language, as the help page gives it.
pub const TITLE: &'static str = "The Yuniye Programming Language";

/// The escape sequence that switches colour and style off.
pub open spec fn paint_close() -> Seq<char> {
    "\x1B[0m"@
}

/// Whether `out` is `text` set in a colour: `text` itself where colour is
/// switched off, else text that ends by switching the colour off and holds
/// at least as much before that as `text` does.
pub open spec fn is_painted(text: Seq<char>, out: Seq<char>) -> bool {
    ||| out == text
    ||| {
        &&& paint_close().is_suffix_of(out)
        &&& out.len() >= text.len() + paint_close().len()
    }
}

/// `colored::Colorize::color` on a `&str`, and `Display` of the
/// `ColoredString` that it gives, through `to_string`. Whether colour is
/// on depends on the environment, on the terminal and on an override that
/// any thread may set at any time, and `colored` asks anew for each part
/// that it writes; so the contract states what holds whatever the answers
/// were. With colour off the text comes back as it is. With colour on,
/// `ESC [ 0 m` ends it, and before that stands the text, with nothing
/// taken out of it: the sequence that switches the colour on comes at the
/// front and again behind every `ESC [ 0 m` of the text itself.
#[verifier::external_body]
fn paint(text: &str, tint: Tint) -> (out: String)
    ensures
        is_painted(text@, out@),
{
    let color = match tint {
        Tint::Green => Color::Green,
        Tint::Yellow => Color::Yellow,
        Tint::Cyan => Color::Cyan,
        Tint::Magenta => Color::Magenta,
        Tint::White => Color::White,
    };
    text.color(color).to_string()
}

/// `colored::Colorize::bold` on the `ColoredString` that
/// `colored::Colorize::color` gives of a `&str`, and `Display` of the
/// result, through `to_string`. The contract is that of `paint`: bold adds
/// to the sequence that switches the colour on, and to nothing else.
#[verifier::external_body]
fn paint_bold(text: &str, tint: Tint) -> (out: String)
    ensures
        is_painted(text@, out@),
{
    let color = match tint {
        Tint::Green => Color::Green,
        Tint::Yellow => Color::Yellow,
        Tint::Cyan => Color::Cyan,
        Tint::Magenta => Color::Magenta,
        Tint::White => Color::White,
    };
    text.color(color).bold().to_string()
}

/// The commit and the kind of release between brackets.
pub open spec fn build_tag(commit: Seq<char>, release: Seq<char>) -> Seq<char> {
    "("@ + commit + " "@ + release + ")"@
}

/// The version line: the name, the version and the build.
pub open spec fn version_line(name: Seq<char>, version: Seq<char>, build: Seq<char>) -> Seq<char> {
    name + " "@ + version + " "@ + build
}

/// Whether `out` is the version line of the tool: the name, the version
/// and the bracket that holds the commit and the kind of release, each of
/// the five set in a colour, the bracket after what it holds.
pub open spec fn is_version(out: Seq<char>) -> bool {
    exists|name: Seq<char>, version: Seq<char>, commit: Seq<char>, release: Seq<char>, build: Seq<char>|
        {
            &&& is_painted("Yuniye"@, name)
            &&& is_painted(VERSION@, version)
            &&& is_painted(LAST_COMMIT_ID@, commit)
            &&& is_painted(RELEASE_TYPE@, release)
            &&& #[trigger] is_painted(build_tag(commit, release), build)
            &&& out == #[trigger] version_line(name, version, build)
        }
}

/// The banner of the help page: the title and the version.
pub open spec fn banner_line(title: Seq<char>, version: Seq<char>) -> Seq<char> {
    "\n"@ + title + " version "@ + version + " \n"@
}

/// Whether `out` is the banner of the help page, with the title and the
/// version each set in a colour.
pub open spec fn is_banner(out: Seq<char>) -> bool {
    exists|title: Seq<char>, version: Seq<char>|
        {
            &&& is_painted(TITLE@, title)
            &&& is_painted(VERSION@, version)
            &&& out == #[trigger] banner_line(title, version)
        }
}

/// An argument between angle brackets behind what it belongs to.
pub open spec fn hint_text(before: Seq<char>, argument: Seq<char>) -> Seq<char> {
    before + argument + ">"@
}

/// Whether `out` is `before`, then `argument` set in a colour, then `>`,
/// and all of that set in a colour.
pub open spec fn is_hint(before: Seq<char>, argument: Seq<char>, out: Seq<char>) -> bool {
    exists|inner: Seq<char>|
        {
            &&& is_painted(argument, inner)
            &&& #[trigger] is_painted(hint_text(before, inner), out)
        }
}

/// The option of the built-in server, with the arguments given.
pub open spec fn server_text(addr: Seq<char>, port: Seq<char>) -> Seq<char> {
    "-S <"@ + addr + ">:<"@ + port + ">"@
}

/// Whether `out` is the option of the built-in server, set in a colour,
/// with its address and its port each set in a colour before.
pub open spec fn is_server_mark(out: Seq<char>) -> bool {
    exists|addr: Seq<char>, port: Seq<char>|
        {
            &&& is_painted("addr"@, addr)
            &&& is_painted("port"@, port)
            &&& #[trigger] is_painted(server_text(addr, port), out)
        }
}

/// The help page with its seventeen coloured texts set in.
pub open spec fn help_page(marks: Seq<Seq<char>>) -> Seq<char> {
    marks[0] + "\n"@
        + marks[1] + "\n  yuniye [OPTIONS] [COMMAND] [args...]\n  yuniye [OPTIONS] <file> Runs a Yuniye file (.yy or .yn)\n  yuniye [OPTIONS] <folder> Runs the root file from a given folder\n\n"@
        + marks[2] + "\n  "@
        + marks[3] + "            Prints version info and exit\n  "@
        + marks[4] + "                Run as interactive shell\n  "@
        + marks[5] + "     Increase the verbosity of messages: 1 for normal output, 2 for more verbose output and 3 for debug\n  "@
        + marks[6] + "              Do not output any message\n  "@
        + marks[7] + "             Override a configuration value\n  "@
        + marks[8] + "         Run with built-in web server.\n  "@
        + marks[9] + "               Print help information\n\n"@
        + marks[10] + "\n  yuniye "@
        + marks[11] + "          Create a new Yuniye project\n  yuniye "@
        + marks[12] + "            Installs/synchronizes dependencies\n  yuniye "@
        + marks[13] + "              Removes installed dependencies\n  yuniye "@
        + marks[14] + "               Installs dependencies and/or builds current project\n  yuniye "@
        + marks[15] + "      Removes all compiled files from given folder\n\nSee `duke "@
        + marks[16] + "` for more information on a specific command.\n            "@
}

/// Whether `marks` are the seventeen coloured texts of the help page.
pub open spec fn help_marks(marks: Seq<Seq<char>>) -> bool {
    &&& marks.len() == 17
    &&& is_banner(marks[0])
    &&& is_painted("Usage:"@, marks[1])
    &&& is_painted("Options:"@, marks[2])
    &&& is_painted("-V, --version"@, marks[3])
    &&& is_painted("-r, --run"@, marks[4])
    &&& is_painted("-v|vv|vvv, --verbose"@, marks[5])
    &&& is_painted("-q, --quite"@, marks[6])
    &&& is_painted("-c, --config"@, marks[7])
    &&& is_server_mark(marks[8])
    &&& is_painted("-h, --help"@, marks[9])
    &&& is_painted("Project usage:"@, marks[10])
    &&& is_hint("new <"@, "name"@, marks[11])
    &&& is_painted("add/sync"@, marks[12])
    &&& is_painted("remove"@, marks[13])
    &&& is_painted("build"@, marks[14])
    &&& is_hint("clean <"@, "folder"@, marks[15])
    &&& is_hint("help <"@, "command"@, marks[16])
}

/// Whether `out` is the help page of the tool.
pub open spec fn is_help(out: Seq<char>) -> bool {
    exists|marks: Seq<Seq<char>>| help_marks(marks) && out == #[trigger] help_page(marks)
}

/// What each of `texts` holds.
pub open spec fn text_views(texts: Seq<String>) -> Seq<Seq<char>> {
    texts.map_values(|text: String| text@)
}

impl Command {
    /// Puts the commit and the kind of release between brackets.
    pub fn join_build(commit: &str, release: &str) -> (out: String)
        ensures
            out@ == build_tag(commit@, release@),
    {
        let mut out = String::from_str("(");
        out.append(commit);
        out.append(" ");
        out.append(release);
        out.append(")");
        out
    }

    /// Puts the version line together.
    pub fn join_version(name: &str, version: &str, build: &str) -> (out: String)
        ensures
            out@ == version_line(name@, version@, build@),
    {
        let mut out = String::from_str(name);
        out.append(" ");
        out.append(version);
        out.append(" ");
        out.append(build);
        out
    }

    /// Sets the seventeen coloured texts into the help page.
    pub fn join_help(marks: &Vec<String>) -> (out: String)
        requires
            marks@.len() == 17,
        ensures
            out@ == help_page(text_views(marks@)),
    {
        let mut out = String::new();
        proof {
            assert(Seq::<char>::empty() + marks@[0]@ =~= marks@[0]@);
        }
        out.append(marks[0].as_str());
        out.append("\n");
        out.append(marks[1].as_str());
        out.append("\n  yuniye [OPTIONS] [COMMAND] [args...]\n  yuniye [OPTIONS] <file> Runs a Yuniye file (.yy or .yn)\n  yuniye [OPTIONS] <folder> Runs the root file from a given folder\n\n");
        out.append(marks[2].as_str());
        out.append("\n  ");
        out.append(marks[3].as_str());
        out.append("            Prints version info and exit\n  ");
        out.append(marks[4].as_str());
        out.append("                Run as interactive shell\n  ");
        out.append(marks[5].as_str());
        out.append("     Increase the verbosity of messages: 1 for normal output, 2 for more verbose output and 3 for debug\n  ");
        out.append(marks[6].as_str());
        out.append("              Do not output any message\n  ");
        out.append(marks[7].as_str());
        out.append("             Override a configuration value\n  ");
        out.append(marks[8].as_str());
        out.append("         Run with built-in web server.\n  ");
        out.append(marks[9].as_str());
        out.append("               Print help information\n\n");
        out.append(marks[10].as_str());
        out.append("\n  yuniye ");
        out.append(marks[11].as_str());
        out.append("          Create a new Yuniye project\n  yuniye ");
        out.append(marks[12].as_str());
        out.append("            Installs/synchronizes dependencies\n  yuniye ");
        out.append(marks[13].as_str());
        out.append("              Removes installed dependencies\n  yuniye ");
        out.append(marks[14].as_str());
        out.append("               Installs dependencies and/or builds current project\n  yuniye ");
        out.append(marks[15].as_str());
        out.append("      Removes all compiled files from given folder\n\nSee `duke ");
        out.append(marks[16].as_str());
        out.append("` for more information on a specific command.\n            ");
        out
    }

    fn banner() -> (out: String)
        ensures
            is_banner(out@),
    {
        let title = paint_bold(TITLE, Tint::Green);
        let version = paint(VERSION, Tint::Yellow);
        let mut out = String::from_str("\n");
        out.append(title.as_str());
        out.append(" version ");
        out.append(version.as_str());
        out.append(" \n");
        proof {
            assert(out@ == banner_line(title@, version@));
        }
        out
    }

    fn hint(before: &str, argument: &str) -> (out: String)
        ensures
            is_hint(before@, argument@, out@),
    {
        let inner = paint(argument, Tint::Cyan);
        let mut text = String::from_str(before);
        text.append(inner.as_str());
        text.append(">");
        let out = paint(text.as_str(), Tint::Green);
        proof {
            assert(is_painted(hint_text(before@, inner@), out@));
        }
        out
    }

    fn server_mark() -> (out: String)
        ensures
            is_server_mark(out@),
    {
        let addr = paint("addr", Tint::Cyan);
        let port = paint("port", Tint::Magenta);
        let mut text = String::from_str("-S <");
        text.append(addr.as_str());
        text.append(">:<");
        text.append(port.as_str());
        text.append(">");
        let out = paint(text.as_str(), Tint::Green);
        proof {
            assert(is_painted(server_text(addr@, port@), out@));
        }
        out
    }

    /// The help page: usage, options and project commands, with what
    /// stands out set in colour.
    pub fn help() -> (out: String)
        ensures
            is_help(out@),
    {
        let mut marks: Vec<String> = Vec::new();
        marks.push(Self::banner());
        marks.push(paint("Usage:", Tint::Yellow));
        marks.push(paint("Options:", Tint::Yellow));
        marks.push(paint("-V, --version", Tint::Green));
        marks.push(paint("-r, --run", Tint::Green));
        marks.push(paint("-v|vv|vvv, --verbose", Tint::Green));
        marks.push(paint("-q, --quite", Tint::Green));
        marks.push(paint("-c, --config", Tint::Green));
        marks.push(Self::server_mark());
        marks.push(paint("-h, --help", Tint::Green));
        marks.push(paint("Project usage:", Tint::Yellow));
        marks.push(Self::hint("new <", "name"));
        marks.push(paint("add/sync", Tint::Green));
        marks.push(paint("remove", Tint::Green));
        marks.push(paint("build", Tint::Green));
        marks.push(Self::hint("clean <", "folder"));
        marks.push(Self::hint("help <", "command"));
        let out = Self::join_help(&marks);
        proof {
            assert(help_marks(text_views(marks@)));
        }
        out
    }

    /// The version line: the name of the language, its version, and the
    /// commit and the kind of release that it was built from.
    pub fn version() -> (out: String)
        ensures
            is_version(out@),
    {
        let commit = paint(LAST_COMMIT_ID, Tint::Magenta);
        let release = paint(RELEASE_TYPE, Tint::White);
        let tag = Self::join_build(commit.as_str(), release.as_str());
        let build = paint(tag.as_str(), Tint::Cyan);
        let name = paint("Yuniye", Tint::Green);
        let version = paint(VERSION, Tint::Yellow);
        let out = Self::join_version(name.as_str(), version.as_str(), build.as_str());
        proof {
            assert(is_painted(build_tag(commit@, release@), build@));
            assert(out@ == version_line(name@, version@, build@));
        }
        out
    }
}

} // verus!
