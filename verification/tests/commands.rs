use colored::Colorize;
use yuniye::command::{Command, LAST_COMMIT_ID, RELEASE_TYPE, TITLE, VERSION};

fn plain_marks() -> Vec<String> {
    let mut marks = Vec::new();
    for i in 0..17 {
        marks.push(format!("<{}>", i));
    }
    marks
}

#[test]
fn version_line_is_joined_with_spaces() {
    assert_eq!(Command::join_version("Yuniye", "0.1.0", "(e1d3b9a Experimental)"), "Yuniye 0.1.0 (e1d3b9a Experimental)");
    assert_eq!(Command::join_version("", "", ""), "  ");
    assert_eq!(Command::join_build("e1d3b9a", "Experimental"), "(e1d3b9a Experimental)");
}

#[test]
fn constants_of_the_tool() {
    assert_eq!(VERSION, "0.1.0");
    assert_eq!(LAST_COMMIT_ID, "e1d3b9a");
    assert_eq!(RELEASE_TYPE, "Experimental");
    assert_eq!(TITLE, "The Yuniye Programming Language");
}

#[test]
fn help_page_is_filled_in_order() {
    let m = plain_marks();
    let expected = format!(
        "{}
{}
  yuniye [OPTIONS] [COMMAND] [args...]
  yuniye [OPTIONS] <file> Runs a Yuniye file (.yy or .yn)
  yuniye [OPTIONS] <folder> Runs the root file from a given folder

{}
  {}            Prints version info and exit
  {}                Run as interactive shell
  {}     Increase the verbosity of messages: 1 for normal output, 2 for more verbose output and 3 for debug
  {}              Do not output any message
  {}             Override a configuration value
  {}         Run with built-in web server.
  {}               Print help information

{}
  yuniye {}          Create a new Yuniye project
  yuniye {}            Installs/synchronizes dependencies
  yuniye {}              Removes installed dependencies
  yuniye {}               Installs dependencies and/or builds current project
  yuniye {}      Removes all compiled files from given folder

See `duke {}` for more information on a specific command.
            ",
        m[0], m[1], m[2], m[3], m[4], m[5], m[6], m[7], m[8], m[9], m[10], m[11], m[12], m[13],
        m[14], m[15], m[16],
    );
    assert_eq!(Command::join_help(&m), expected);
}

#[test]
fn version_in_colour() {
    colored::control::set_override(true);
    let other = format!("({} {})", LAST_COMMIT_ID.magenta(), RELEASE_TYPE.white()).cyan();
    let expected = format!("{} {} {}", "Yuniye".green(), VERSION.yellow(), other);
    let version = Command::version();
    assert_eq!(version, expected);
    assert_eq!(
        version,
        "\x1b[32mYuniye\x1b[0m \x1b[33m0.1.0\x1b[0m \x1b[36m(\x1b[35me1d3b9a\x1b[0m\x1b[36m \x1b[37mExperimental\x1b[0m\x1b[36m)\x1b[0m"
    );
}

#[test]
fn help_in_colour() {
    colored::control::set_override(true);
    let expected = format!(
        "{}
{}
  yuniye [OPTIONS] [COMMAND] [args...]
  yuniye [OPTIONS] <file> Runs a Yuniye file (.yy or .yn)
  yuniye [OPTIONS] <folder> Runs the root file from a given folder

{}
  {}            Prints version info and exit
  {}                Run as interactive shell
  {}     Increase the verbosity of messages: 1 for normal output, 2 for more verbose output and 3 for debug
  {}              Do not output any message
  {}             Override a configuration value
  {}         Run with built-in web server.
  {}               Print help information

{}
  yuniye {}          Create a new Yuniye project
  yuniye {}            Installs/synchronizes dependencies
  yuniye {}              Removes installed dependencies
  yuniye {}               Installs dependencies and/or builds current project
  yuniye {}      Removes all compiled files from given folder

See `duke {}` for more information on a specific command.
            ",
        format!("\n{} version {} \n", TITLE.green().bold(), VERSION.yellow()),
        "Usage:".yellow(),
        "Options:".yellow(),
        "-V, --version".green(),
        "-r, --run".green(),
        "-v|vv|vvv, --verbose".green(),
        "-q, --quite".green(),
        "-c, --config".green(),
        format!("-S <{}>:<{}>", "addr".cyan(), "port".magenta()).green(),
        "-h, --help".green(),
        "Project usage:".yellow(),
        format!("new <{}>", "name".cyan()).green(),
        "add/sync".green(),
        "remove".green(),
        "build".green(),
        format!("clean <{}>", "folder".cyan()).green(),
        format!("help <{}>", "command".cyan()).green(),
    );
    let help = Command::help();
    assert_eq!(help, expected);
    assert!(help.starts_with("\n\x1b[1;32mThe Yuniye Programming Language\x1b[0m version \x1b[33m0.1.0\x1b[0m \n\n\x1b[33mUsage:\x1b[0m\n"));
    assert!(help.contains("\x1b[32mnew <\x1b[36mname\x1b[0m\x1b[32m>\x1b[0m"));
}

#[test]
fn commands_are_told_apart() {
    assert_eq!(format!("{:?}", Command::Run(String::from("a.yy"))), "Run(\"a.yy\")");
    assert_eq!(format!("{:?}", Command::Help), "Help");
}
