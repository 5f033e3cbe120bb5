//! What a service definition says, and how one is installed: laws on definitions and
//! on the steps of an install.
use vstd::prelude::*;
use vstd::utf8::{decode_utf8, encode_utf8, valid_utf8};

use crate::install::{install_after, plan_install, InstallView};
use crate::ownership::{file_problem, sha256_hex, FileView, ManifestView};
use crate::path::{same_path, under};
use crate::service::{definition, systemd_escaped, xml_escaped};
use crate::text::lossy_text;

verus! {

/// Escaping goes character by character.
pub proof fn lemma_escaping_goes_by_characters(left: Seq<char>, right: Seq<char>)
    ensures
        xml_escaped(left + right) == xml_escaped(left) + xml_escaped(right),
        systemd_escaped(left + right) == systemd_escaped(left) + systemd_escaped(right),
    decreases right.len(),
{
    if right.len() == 0 {
        assert(left + right =~= left);
        assert(xml_escaped(left) + xml_escaped(right) =~= xml_escaped(left));
        assert(systemd_escaped(left) + systemd_escaped(right) =~= systemd_escaped(left));
    } else {
        let front = right.drop_last();
        lemma_escaping_goes_by_characters(left, front);
        assert((left + right).drop_last() =~= left + front);
        assert((left + right).last() == right.last());
        assert(xml_escaped(left + right) =~= xml_escaped(left) + xml_escaped(right));
        assert(systemd_escaped(left + right) =~= systemd_escaped(left) + systemd_escaped(right));
    }
}

/// The five characters that mean something in a property list are written as entities,
/// and no other.
pub proof fn lemma_what_a_property_list_escapes(ch: char)
    ensures
        xml_escaped(seq!['&']) == "&amp;"@,
        xml_escaped(seq!['<']) == "&lt;"@,
        xml_escaped(seq!['>']) == "&gt;"@,
        xml_escaped(seq!['"']) == "&quot;"@,
        xml_escaped(seq!['\'']) == "&apos;"@,
        !(ch == '&' || ch == '<' || ch == '>' || ch == '"' || ch == '\'') ==> xml_escaped(seq![ch])
            == seq![ch],
{
    lemma_one_character('&');
    lemma_one_character('<');
    lemma_one_character('>');
    lemma_one_character('"');
    lemma_one_character('\'');
    lemma_one_character(ch);
}

/// Percent signs are doubled in a unit, backslashes and quotes get a backslash, and no
/// other character changes.
pub proof fn lemma_what_a_unit_escapes(ch: char)
    ensures
        systemd_escaped(seq!['%']) == "%%"@,
        systemd_escaped(seq!['\\']) == "\\\\"@,
        systemd_escaped(seq!['"']) == "\\\""@,
        !(ch == '%' || ch == '\\' || ch == '"') ==> systemd_escaped(seq![ch]) == seq![ch],
{
    lemma_one_character('%');
    lemma_one_character('\\');
    lemma_one_character('"');
    lemma_one_character(ch);
}

/// One character is escaped by itself.
proof fn lemma_one_character(ch: char)
    ensures
        xml_escaped(seq![ch]) == crate::service::xml_escape(ch),
        systemd_escaped(seq![ch]) == crate::service::systemd_escape(ch),
{
    reveal_with_fuel(xml_escaped, 2);
    reveal_with_fuel(systemd_escaped, 2);
    assert(seq![ch].drop_last() =~= Seq::empty());
    assert(xml_escaped(seq![ch]) =~= crate::service::xml_escape(ch));
    assert(systemd_escaped(seq![ch]) =~= crate::service::systemd_escape(ch));
}

/// The definition for launchd stands below the user's agents. It names its owner and
/// the service, and runs the program, with its path escaped, as `run`: at load, and
/// again whenever it ends.
pub proof fn lemma_the_definition_for_launchd(root: Seq<u8>, program: Seq<u8>)
    requires
        valid_utf8(program),
    ensures
        definition("macos"@, root, program) == Ok::<(Seq<u8>, Seq<u8>), Seq<char>>(
            (
                under(
                    root,
                    encode_utf8(
                        "Library/LaunchAgents/com.joaquincampo.codex-for-grok.plist"@,
                    ),
                ),
                encode_utf8(
                    "<?xml version=\"1.0\" encoding=\"UTF-8\"?>\n<!-- owner: JoaquinCampo/codex-for-grok -->\n"@
                        + "<!DOCTYPE plist PUBLIC \"-//Apple//DTD PLIST 1.0//EN\" \"http://www.apple.com/DTDs/PropertyList-1.0.dtd\">\n"@
                        + "<plist version=\"1.0\"><dict>"@
                        + "<key>Label</key><string>com.joaquincampo.codex-for-grok</string>"@
                        + "<key>ProgramArguments</key><array><string>"@ + xml_escaped(
                        decode_utf8(program),
                    ) + "</string><string>run</string></array>"@
                        + "<key>RunAtLoad</key><true/><key>KeepAlive</key><true/></dict></plist>\n"@,
                ),
            ),
        ),
{
    reveal_strlit("Library/LaunchAgents/");
    reveal_strlit("com.joaquincampo.codex-for-grok");
    reveal_strlit(".plist");
    reveal_strlit("Library/LaunchAgents/com.joaquincampo.codex-for-grok.plist");
    assert("Library/LaunchAgents/"@ + "com.joaquincampo.codex-for-grok"@ + ".plist"@
        =~= "Library/LaunchAgents/com.joaquincampo.codex-for-grok.plist"@);
    lemma_beginning_for_launchd();
    lemma_end_for_launchd();
    let text = xml_escaped(decode_utf8(program));
    let first = "<?xml version=\"1.0\" encoding=\"UTF-8\"?>\n<!-- owner: JoaquinCampo/codex-for-grok -->\n"@
        + "<!DOCTYPE plist PUBLIC \"-//Apple//DTD PLIST 1.0//EN\" \"http://www.apple.com/DTDs/PropertyList-1.0.dtd\">\n"@
        + "<plist version=\"1.0\"><dict>"@
        + "<key>Label</key><string>com.joaquincampo.codex-for-grok</string>"@
        + "<key>ProgramArguments</key><array><string>"@;
    assert(first + text + "</string><string>run</string></array>"@
        + "<key>RunAtLoad</key><true/><key>KeepAlive</key><true/></dict></plist>\n"@ =~= first + text
        + ("</string><string>run</string></array>"@
        + "<key>RunAtLoad</key><true/><key>KeepAlive</key><true/></dict></plist>\n"@));
    reveal_strlit("macos");
    reveal_strlit("linux");
    assert("macos"@[0] == 'm' && "linux"@[0] == 'l');
}

/// The definition for launchd up to the program.
proof fn lemma_beginning_for_launchd()
    ensures
        "<?xml version=\"1.0\" encoding=\"UTF-8\"?>\n<!-- owner: JoaquinCampo/codex-for-grok -->\n"@
            + "<!DOCTYPE plist PUBLIC \"-//Apple//DTD PLIST 1.0//EN\" \"http://www.apple.com/DTDs/PropertyList-1.0.dtd\">\n"@
            + "<plist version=\"1.0\"><dict>"@
            + "<key>Label</key><string>com.joaquincampo.codex-for-grok</string>"@
            + "<key>ProgramArguments</key><array><string>"@
            == "<?xml version=\"1.0\" encoding=\"UTF-8\"?>\n<!-- owner: "@
            + "JoaquinCampo/codex-for-grok"@
            + " -->\n<!DOCTYPE plist PUBLIC \"-//Apple//DTD PLIST 1.0//EN\" \"http://www.apple.com/DTDs/PropertyList-1.0.dtd\">\n<plist version=\"1.0\"><dict><key>Label</key><string>"@
            + "com.joaquincampo.codex-for-grok"@
            + "</string><key>ProgramArguments</key><array><string>"@,
{
    reveal_strlit(
        "<?xml version=\"1.0\" encoding=\"UTF-8\"?>\n<!-- owner: JoaquinCampo/codex-for-grok -->\n",
    );
    reveal_strlit(
        "<!DOCTYPE plist PUBLIC \"-//Apple//DTD PLIST 1.0//EN\" \"http://www.apple.com/DTDs/PropertyList-1.0.dtd\">\n",
    );
    reveal_strlit("<plist version=\"1.0\"><dict>");
    reveal_strlit("<key>Label</key><string>com.joaquincampo.codex-for-grok</string>");
    reveal_strlit("<key>ProgramArguments</key><array><string>");
    reveal_strlit("<?xml version=\"1.0\" encoding=\"UTF-8\"?>\n<!-- owner: ");
    reveal_strlit("JoaquinCampo/codex-for-grok");
    reveal_strlit(
        " -->\n<!DOCTYPE plist PUBLIC \"-//Apple//DTD PLIST 1.0//EN\" \"http://www.apple.com/DTDs/PropertyList-1.0.dtd\">\n<plist version=\"1.0\"><dict><key>Label</key><string>",
    );
    reveal_strlit("com.joaquincampo.codex-for-grok");
    reveal_strlit("</string><key>ProgramArguments</key><array><string>");
}

/// The definition for launchd behind the program.
proof fn lemma_end_for_launchd()
    ensures
        "</string><string>run</string></array>"@
            + "<key>RunAtLoad</key><true/><key>KeepAlive</key><true/></dict></plist>\n"@
            == "</string><string>run</string></array><key>RunAtLoad</key><true/><key>KeepAlive</key><true/></dict></plist>\n"@,
{
    reveal_strlit("</string><string>run</string></array>");
    reveal_strlit("<key>RunAtLoad</key><true/><key>KeepAlive</key><true/></dict></plist>\n");
    reveal_strlit(
        "</string><string>run</string></array><key>RunAtLoad</key><true/><key>KeepAlive</key><true/></dict></plist>\n",
    );
}

/// The definition for systemd stands below the user's units. It names its owner, runs
/// the program, with its path escaped and quoted, as `run`, and again where it fails.
pub proof fn lemma_the_definition_for_systemd(root: Seq<u8>, program: Seq<u8>)
    requires
        valid_utf8(program),
    ensures
        definition("linux"@, root, program) == Ok::<(Seq<u8>, Seq<u8>), Seq<char>>(
            (
                under(root, encode_utf8(".config/systemd/user/codex-for-grok.service"@)),
                encode_utf8(
                    "# owner: JoaquinCampo/codex-for-grok\n[Unit]\nDescription=Codex for Grok\n"@
                        + "[Service]\nExecStart=\""@ + systemd_escaped(decode_utf8(program))
                        + "\" run\nRestart=on-failure\n[Install]\nWantedBy=default.target\n"@,
                ),
            ),
        ),
{
    let text = systemd_escaped(decode_utf8(program));
    lemma_beginning_for_systemd();
    reveal_strlit("\"");
    reveal_strlit(" run\nRestart=on-failure\n[Install]\nWantedBy=default.target\n");
    reveal_strlit("\" run\nRestart=on-failure\n[Install]\nWantedBy=default.target\n");
    assert("\""@ + " run\nRestart=on-failure\n[Install]\nWantedBy=default.target\n"@
        =~= "\" run\nRestart=on-failure\n[Install]\nWantedBy=default.target\n"@);
    let first = "# owner: "@ + "JoaquinCampo/codex-for-grok"@
        + "\n[Unit]\nDescription=Codex for Grok\n[Service]\nExecStart="@;
    let last = " run\nRestart=on-failure\n[Install]\nWantedBy=default.target\n"@;
    assert(first + ("\""@ + text + "\""@) + last =~= (first + "\""@) + text + ("\""@ + last));
    reveal_strlit("macos");
    reveal_strlit("linux");
    assert("macos"@[0] == 'm' && "linux"@[0] == 'l');
}

/// The definition for systemd up to the program.
proof fn lemma_beginning_for_systemd()
    ensures
        "# owner: JoaquinCampo/codex-for-grok\n[Unit]\nDescription=Codex for Grok\n"@
            + "[Service]\nExecStart=\""@ == "# owner: "@ + "JoaquinCampo/codex-for-grok"@
            + "\n[Unit]\nDescription=Codex for Grok\n[Service]\nExecStart="@ + "\""@,
{
    reveal_strlit("# owner: JoaquinCampo/codex-for-grok\n[Unit]\nDescription=Codex for Grok\n");
    reveal_strlit("[Service]\nExecStart=\"");
    reveal_strlit("# owner: ");
    reveal_strlit("JoaquinCampo/codex-for-grok");
    reveal_strlit("\n[Unit]\nDescription=Codex for Grok\n[Service]\nExecStart=");
    reveal_strlit("\"");
}

/// No definition is made for a path that is no text, nor for another system.
pub proof fn lemma_where_there_is_no_definition(
    os: Seq<char>,
    root: Seq<u8>,
    program: Seq<u8>,
)
    ensures
        os == "macos"@ && !valid_utf8(program) ==> definition(os, root, program) == Err::<
            (Seq<u8>, Seq<u8>),
            Seq<char>,
        >("service executable path is not valid UTF-8 and cannot be represented in a plist"@),
        os == "linux"@ && !valid_utf8(program) ==> definition(os, root, program) == Err::<
            (Seq<u8>, Seq<u8>),
            Seq<char>,
        >(
            "service executable path is not valid UTF-8 and cannot be represented in a systemd unit"@,
        ),
        os != "macos"@ && os != "linux"@ ==> definition(os, root, program) == Err::<
            (Seq<u8>, Seq<u8>),
            Seq<char>,
        >("services supported only on macOS and Linux"@),
{
    reveal_strlit("macos");
    reveal_strlit("linux");
    assert("macos"@[0] == 'm' && "linux"@[0] == 'l');
}

/// What an install asks for: a manifest, then a definition. Where a service is recorded
/// it has to be the bridge's own and this very definition, and is only started; where
/// none is recorded the place has to be free, and the definition is written and recorded.
pub proof fn lemma_what_an_install_does(
    manifest: Result<Option<ManifestView>, Seq<char>>,
    made: Result<(Seq<u8>, Seq<u8>), Seq<char>>,
    content: Option<Seq<u8>>,
    occupied: bool,
)
    ensures
        ({
            let result = plan_install(manifest, made, content, occupied);
            match (manifest, made) {
                (Err(error), _) => result == InstallView::Finished(Err(error)),
                (Ok(None), _) => result == InstallView::Finished(Err("run setup before start"@)),
                (Ok(Some(_)), Err(error)) => result == InstallView::Finished(Err(error)),
                (Ok(Some(found)), Ok((path, body))) => match found.service {
                    Some(file) => {
                        let own = content matches Some(bytes) && sha256_hex(bytes) == file.digest;
                        let same = same_path(file.path, path) && file.digest == sha256_hex(body);
                        let foreign = file_problem(file, content);
                        &&& !own ==> foreign is Some && result == InstallView::Finished(
                            Err(foreign.unwrap()),
                        )
                        &&& own && !same ==> result == InstallView::Finished(
                            Err("installed service belongs to another binary; uninstall it first"@),
                        )
                        &&& own && same ==> result == (InstallView::Start { path })
                    },
                    None => {
                        &&& occupied ==> result == InstallView::Finished(
                            Err(
                                "service definition already exists and is not owned: "@
                                    + lossy_text(path),
                            ),
                        )
                        &&& !occupied ==> result == (InstallView::WriteService {
                            path,
                            body,
                            manifest: ManifestView {
                                version: found.version,
                                config: found.config,
                                blocks: found.blocks,
                                service: Some(FileView { path, digest: sha256_hex(body) }),
                            },
                        })
                    },
                },
            }
        }),
{
}

/// The steps of an install: the definition, the manifest, the start. A manifest that
/// cannot be written has the definition taken away again.
pub proof fn lemma_the_steps_of_an_install(
    path: Seq<u8>,
    body: Seq<u8>,
    manifest: ManifestView,
    error: Seq<char>,
    other: Seq<char>,
    r: Result<Seq<char>, Seq<char>>,
    outcome: Result<(), Seq<char>>,
)
    ensures
        ({
            let first = InstallView::WriteService { path, body, manifest };
            let second = InstallView::WriteManifest { path, manifest };
            let third = InstallView::Start { path };
            let back = InstallView::RemoveService { path, error };
            &&& install_after(first, Ok(())) == second
            &&& install_after(first, Err(error)) == InstallView::Finished(Err(error))
            &&& install_after(second, Ok(())) == third
            &&& install_after(second, Err(error)) == back
            &&& install_after(third, Ok(())) == InstallView::Finished(
                Ok("service installed and started"@),
            )
            &&& install_after(third, Err(error)) == InstallView::Finished(Err(error))
            &&& install_after(back, Ok(())) == InstallView::Finished(
                Err("manifest write failed; service file was rolled back: "@ + error),
            )
            &&& install_after(back, Err(other)) == InstallView::Finished(
                Err(
                    "manifest write failed ("@ + error + "); service rollback failed ("@ + other
                        + ")"@,
                ),
            )
            &&& install_after(InstallView::Finished(r), outcome) == InstallView::Finished(r)
        }),
{
}

} // verus!
