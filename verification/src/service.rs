//! The user service: its definition for each service manager, and the commands
//! that start, stop and query it.
use vstd::prelude::*;
use vstd::utf8::{decode_utf8, encode_utf8, valid_utf8};

use crate::path::{join_path, under};
use crate::text::{concat, concat3, same_text, text_result, utf8_text};

verus! {

/// The label of the service under launchd.
pub const LABEL: &'static str = "com.joaquincampo.codex-for-grok";

/// The owner that a service definition names.
pub const OWNER: &'static str = "JoaquinCampo/codex-for-grok";

/// What stands for a character in the text of an XML element.
pub open spec fn xml_escape(ch: char) -> Seq<char> {
    if ch == '&' {
        "&amp;"@
    } else if ch == '<' {
        "&lt;"@
    } else if ch == '>' {
        "&gt;"@
    } else if ch == '"' {
        "&quot;"@
    } else if ch == '\'' {
        "&apos;"@
    } else {
        seq![ch]
    }
}

/// A text as it stands in an XML element.
pub open spec fn xml_escaped(text: Seq<char>) -> Seq<char>
    decreases text.len(),
{
    if text.len() == 0 {
        Seq::empty()
    } else {
        xml_escaped(text.drop_last()) + xml_escape(text.last())
    }
}

/// What stands for a character between the quotes of a systemd argument.
pub open spec fn systemd_escape(ch: char) -> Seq<char> {
    if ch == '%' {
        "%%"@
    } else if ch == '\\' {
        "\\\\"@
    } else if ch == '"' {
        "\\\""@
    } else {
        seq![ch]
    }
}

/// A text as it stands between the quotes of a systemd argument.
pub open spec fn systemd_escaped(text: Seq<char>) -> Seq<char>
    decreases text.len(),
{
    if text.len() == 0 {
        Seq::empty()
    } else {
        systemd_escaped(text.drop_last()) + systemd_escape(text.last())
    }
}

fn append_xml(out: &mut String, ch: char)
    ensures
        final(out)@ == old(out)@ + xml_escape(ch),
{
    if ch == '&' {
        out.append("&amp;");
    } else if ch == '<' {
        out.append("&lt;");
    } else if ch == '>' {
        out.append("&gt;");
    } else if ch == '"' {
        out.append("&quot;");
    } else if ch == '\'' {
        out.append("&apos;");
    } else {
        out.push(ch);
        assert(out@ =~= old(out)@ + seq![ch]);
    }
}

/// Writes a text as it stands in an XML element.
pub fn escape_xml(text: &str) -> (r: String)
    ensures
        r@ == xml_escaped(text@),
{
    let mut out = String::new();
    assert(text@.take(0) =~= Seq::empty());
    for ch in it: text.chars()
        invariant
            it.seq() == text@,
            out@ == xml_escaped(text@.take(it.index() as int)),
    {
        let ghost i = it.index() as int;
        assert(text@.take(i + 1).drop_last() =~= text@.take(i));
        append_xml(&mut out, ch);
    }
    assert(text@.take(text@.len() as int) =~= text@);
    out
}

fn append_systemd(out: &mut String, ch: char)
    ensures
        final(out)@ == old(out)@ + systemd_escape(ch),
{
    if ch == '%' {
        out.append("%%");
    } else if ch == '\\' {
        out.append("\\\\");
    } else if ch == '"' {
        out.append("\\\"");
    } else {
        out.push(ch);
        assert(out@ =~= old(out)@ + seq![ch]);
    }
}

/// Writes a text as it stands between the quotes of a systemd argument.
pub fn escape_systemd(text: &str) -> (r: String)
    ensures
        r@ == systemd_escaped(text@),
{
    let mut out = String::new();
    assert(text@.take(0) =~= Seq::empty());
    for ch in it: text.chars()
        invariant
            it.seq() == text@,
            out@ == systemd_escaped(text@.take(it.index() as int)),
    {
        let ghost i = it.index() as int;
        assert(text@.take(i + 1).drop_last() =~= text@.take(i));
        append_systemd(&mut out, ch);
    }
    assert(text@.take(text@.len() as int) =~= text@);
    out
}

/// A path as it stands in a property list.
pub open spec fn plist_text(path: Seq<u8>) -> Result<Seq<char>, Seq<char>> {
    if valid_utf8(path) {
        Ok(xml_escaped(decode_utf8(path)))
    } else {
        Err(
            "service executable path is not valid UTF-8 and cannot be represented in a plist"@,
        )
    }
}

/// Writes a path as it stands in a property list.
pub fn xml_string(path: &[u8]) -> (r: Result<String, String>)
    ensures
        text_result(r) == plist_text(path@),
{
    match utf8_text(path) {
        Some(text) => Ok(escape_xml(text)),
        None => Err(
            "service executable path is not valid UTF-8 and cannot be represented in a plist".to_owned(),
        ),
    }
}

/// A path as an argument in a systemd unit.
pub open spec fn unit_text(path: Seq<u8>) -> Result<Seq<char>, Seq<char>> {
    if valid_utf8(path) {
        Ok("\""@ + systemd_escaped(decode_utf8(path)) + "\""@)
    } else {
        Err(
            "service executable path is not valid UTF-8 and cannot be represented in a systemd unit"@,
        )
    }
}

/// Writes a path as an argument in a systemd unit.
pub fn systemd_exec_arg(path: &[u8]) -> (r: Result<String, String>)
    ensures
        text_result(r) == unit_text(path@),
{
    match utf8_text(path) {
        Some(text) => Ok(concat3("\"", escape_systemd(text).as_str(), "\"")),
        None => Err(
            "service executable path is not valid UTF-8 and cannot be represented in a systemd unit".to_owned(),
        ),
    }
}

/// The property list that runs the program under launchd.
pub open spec fn plist(program: Seq<char>) -> Seq<char> {
    "<?xml version=\"1.0\" encoding=\"UTF-8\"?>\n<!-- owner: "@ + "JoaquinCampo/codex-for-grok"@
        + " -->\n<!DOCTYPE plist PUBLIC \"-//Apple//DTD PLIST 1.0//EN\" \"http://www.apple.com/DTDs/PropertyList-1.0.dtd\">\n<plist version=\"1.0\"><dict><key>Label</key><string>"@
        + "com.joaquincampo.codex-for-grok"@
        + "</string><key>ProgramArguments</key><array><string>"@ + program
        + "</string><string>run</string></array><key>RunAtLoad</key><true/><key>KeepAlive</key><true/></dict></plist>\n"@
}

/// The unit that runs the program under systemd.
pub open spec fn unit(program: Seq<char>) -> Seq<char> {
    "# owner: "@ + "JoaquinCampo/codex-for-grok"@
        + "\n[Unit]\nDescription=Codex for Grok\n[Service]\nExecStart="@ + program
        + " run\nRestart=on-failure\n[Install]\nWantedBy=default.target\n"@
}

/// Where the service definition stands, and what is in it.
pub open spec fn definition(os: Seq<char>, root: Seq<u8>, program: Seq<u8>) -> Result<
    (Seq<u8>, Seq<u8>),
    Seq<char>,
> {
    if os == "macos"@ {
        match plist_text(program) {
            Ok(text) => Ok(
                (
                    under(
                        root,
                        encode_utf8(
                            "Library/LaunchAgents/"@ + "com.joaquincampo.codex-for-grok"@
                                + ".plist"@,
                        ),
                    ),
                    encode_utf8(plist(text)),
                ),
            ),
            Err(error) => Err(error),
        }
    } else if os == "linux"@ {
        match unit_text(program) {
            Ok(text) => Ok(
                (
                    under(root, encode_utf8(".config/systemd/user/codex-for-grok.service"@)),
                    encode_utf8(unit(text)),
                ),
            ),
            Err(error) => Err(error),
        }
    } else {
        Err("services supported only on macOS and Linux"@)
    }
}

/// What a service definition holds, or why there is none.
pub open spec fn definition_result(r: Result<(Vec<u8>, Vec<u8>), String>) -> Result<
    (Seq<u8>, Seq<u8>),
    Seq<char>,
> {
    match r {
        Ok((path, body)) => Ok((path@, body@)),
        Err(error) => Err(error@),
    }
}

/// Writes the service definition that runs the program, for an operating system
/// and a home directory.
pub fn service_definition_for(os: &str, root: &[u8], program: &[u8]) -> (r: Result<
    (Vec<u8>, Vec<u8>),
    String,
>)
    ensures
        definition_result(r) == definition(os@, root@, program@),
{
    if same_text(os, "macos") {
        let text = match xml_string(program) {
            Ok(text) => text,
            Err(error) => return Err(error),
        };
        let place = concat3("Library/LaunchAgents/", LABEL, ".plist");
        let mut body = concat(
            "<?xml version=\"1.0\" encoding=\"UTF-8\"?>\n<!-- owner: ",
            OWNER,
        );
        body.append(
            " -->\n<!DOCTYPE plist PUBLIC \"-//Apple//DTD PLIST 1.0//EN\" \"http://www.apple.com/DTDs/PropertyList-1.0.dtd\">\n<plist version=\"1.0\"><dict><key>Label</key><string>",
        );
        body.append(LABEL);
        body.append("</string><key>ProgramArguments</key><array><string>");
        body.append(text.as_str());
        body.append(
            "</string><string>run</string></array><key>RunAtLoad</key><true/><key>KeepAlive</key><true/></dict></plist>\n",
        );
        Ok((join_path(root, place.as_str()), body.as_str().as_bytes_vec()))
    } else if same_text(os, "linux") {
        let text = match systemd_exec_arg(program) {
            Ok(text) => text,
            Err(error) => return Err(error),
        };
        let mut body = concat("# owner: ", OWNER);
        body.append("\n[Unit]\nDescription=Codex for Grok\n[Service]\nExecStart=");
        body.append(text.as_str());
        body.append(" run\nRestart=on-failure\n[Install]\nWantedBy=default.target\n");
        Ok(
            (
                join_path(root, ".config/systemd/user/codex-for-grok.service"),
                body.as_str().as_bytes_vec(),
            ),
        )
    } else {
        Err("services supported only on macOS and Linux".to_owned())
    }
}

/// A path that is not UTF-8 gets no service definition on any system.
pub proof fn lemma_unreadable_paths_are_refused(os: Seq<char>, root: Seq<u8>, program: Seq<u8>)
    requires
        !valid_utf8(program),
    ensures
        definition(os, root, program) is Err,
{
}

} // verus!
