//! The decisions of the command-line front end: argument checks, what to do
//! when an environment is replaced or removed, and the text that is shown.

use crate::security::{
    decrypt_with_passphrase, encrypt_with_passphrase, open_sealed_spec, SecurityError, SecurityErrorKind,
    MAX_PLAINTEXT_LEN,
};
use similar::{ChangeTag, TextDiff};
use vstd::prelude::*;
use vstd::string::{StrSliceExecFns, StringSliceAdditionalSpecFns};
use vstd::utf8::{decode_utf8, valid_utf8};

verus! {

/// Where `register` takes the environment from.
pub enum RegisterSource {
    /// A file on the local disk.
    Local { path: String },
    /// A blob shared by another peer, with the file name to store it under.
    Remote { ticket: String, filename: Option<String> },
}

/// Arguments of `register`.
pub struct RegisterArgs<'a> {
    pub project: &'a str,
    pub env: &'a str,
    pub force: bool,
    pub passphrase: Option<&'a str>,
}

/// Arguments of `set`.
pub struct SetArgs<'a> {
    pub project: &'a str,
    pub env: &'a str,
    pub force: bool,
    pub passphrase: &'a str,
}

/// Arguments of `rm`.
pub struct RmArgs<'a> {
    pub project: &'a str,
    pub env: &'a str,
    pub force: bool,
    pub passphrase: &'a str,
}

/// Arguments of `list`.
pub struct ListArgs<'a> {
    pub project: Option<&'a str>,
}

/// Arguments of `show`.
pub struct ShowArgs<'a> {
    pub project: &'a str,
    pub env: &'a str,
    pub passphrase: &'a str,
}

/// Arguments of `share`.
pub struct ShareArgs<'a> {
    pub project: &'a str,
    pub env: &'a str,
}

/// The ways in which a command is refused.
#[derive(Debug, PartialEq, Eq)]
pub enum CommandError {
    /// The environment name contains `/`.
    InvalidEnvName,
    /// A local file was to be registered without a passphrase.
    PassphraseRequired,
    /// The file to register is not valid UTF-8.
    TargetNotUtf8,
    /// The file to register could not be encrypted (reported as the encryption error).
    Encrypt(SecurityError),
    /// The stored environment that would be replaced could not be decrypted.
    DecryptExisting(SecurityError),
    /// The stored environment that would be replaced is not valid UTF-8.
    ExistingNotUtf8,
    /// The incoming environment could not be decrypted.
    DecryptNew(SecurityError),
    /// The incoming environment is not valid UTF-8.
    NewNotUtf8,
    /// The stored environment to be written out could not be decrypted.
    DecryptStored(SecurityError),
    /// The stored environment to be written out is not valid UTF-8.
    StoredNotUtf8,
    /// The environment to be removed could not be decrypted.
    DecryptForConfirmation(SecurityError),
    /// The environment to be shown could not be decrypted (reported as the decryption error).
    Decrypt(SecurityError),
    /// There is no such environment.
    EnvironmentNotFound,
}

impl CommandError {
    /// A human-readable description of the error (without its cause).
    pub fn message(&self) -> (s: String)
        ensures
            s@ == self.spec_message(),
    {
        let text = match self {
            CommandError::InvalidEnvName => "Environment name cannot contain /",
            CommandError::PassphraseRequired => "Passphrase required for local registration",
            CommandError::TargetNotUtf8 => "Target file is not valid UTF-8",
            CommandError::Encrypt(e) => return e.message(),
            CommandError::DecryptExisting(_) => "Failed to decrypt existing env file",
            CommandError::ExistingNotUtf8 => "Stored content is not valid UTF-8",
            CommandError::DecryptNew(_) => "Failed to decrypt new content",
            CommandError::NewNotUtf8 => "New content is not valid UTF-8",
            CommandError::DecryptStored(_) => "Failed to decrypt stored env file",
            CommandError::StoredNotUtf8 => "Stored content is not valid UTF-8",
            CommandError::DecryptForConfirmation(_) => "Failed to decrypt env file for confirmation",
            CommandError::Decrypt(e) => return e.message(),
            CommandError::EnvironmentNotFound => "Environment not found",
        };
        text.to_owned()
    }

    pub open spec fn spec_message(&self) -> Seq<char> {
        match self {
            CommandError::InvalidEnvName => "Environment name cannot contain /"@,
            CommandError::PassphraseRequired => "Passphrase required for local registration"@,
            CommandError::TargetNotUtf8 => "Target file is not valid UTF-8"@,
            CommandError::Encrypt(e) => e.spec_message(),
            CommandError::DecryptExisting(_) => "Failed to decrypt existing env file"@,
            CommandError::ExistingNotUtf8 => "Stored content is not valid UTF-8"@,
            CommandError::DecryptNew(_) => "Failed to decrypt new content"@,
            CommandError::NewNotUtf8 => "New content is not valid UTF-8"@,
            CommandError::DecryptStored(_) => "Failed to decrypt stored env file"@,
            CommandError::StoredNotUtf8 => "Stored content is not valid UTF-8"@,
            CommandError::DecryptForConfirmation(_) => "Failed to decrypt env file for confirmation"@,
            CommandError::Decrypt(e) => e.spec_message(),
            CommandError::EnvironmentNotFound => "Environment not found"@,
        }
    }

    /// The encryption error that this one reports in its own words, if any.
    pub fn cause(&self) -> (r: Option<SecurityError>)
        ensures
            r == self.spec_cause(),
    {
        match self {
            CommandError::DecryptExisting(e) => Some(e.clone()),
            CommandError::DecryptNew(e) => Some(e.clone()),
            CommandError::DecryptStored(e) => Some(e.clone()),
            CommandError::DecryptForConfirmation(e) => Some(e.clone()),
            _ => None,
        }
    }

    pub open spec fn spec_cause(&self) -> Option<SecurityError> {
        match *self {
            CommandError::DecryptExisting(e) => Some(e),
            CommandError::DecryptNew(e) => Some(e),
            CommandError::DecryptStored(e) => Some(e),
            CommandError::DecryptForConfirmation(e) => Some(e),
            _ => None,
        }
    }
}

/// What `String::from_utf8_lossy` makes of `bytes`: the decoded text, with
/// U+FFFD in place of each invalid sequence.
pub uninterp spec fn utf8_lossy(bytes: Seq<u8>) -> Seq<char>;

/// Wraps `String::from_utf8` (std).
/// Trusted: it succeeds exactly on valid UTF-8, and the string then holds the
/// decoded characters.
#[verifier::external_body]
fn utf8_string(bytes: Vec<u8>) -> (r: Option<String>)
    ensures
        r is Some <==> valid_utf8(bytes@),
        r matches Some(s) ==> s@ == decode_utf8(bytes@),
{
    String::from_utf8(bytes).ok()
}

/// Wraps `std::str::from_utf8` (std), keeping whether it succeeded.
/// Trusted: it succeeds exactly on valid UTF-8.
#[verifier::external_body]
fn is_utf8(bytes: &[u8]) -> (r: bool)
    ensures
        r == valid_utf8(bytes@),
{
    std::str::from_utf8(bytes).is_ok()
}

/// Wraps `String::from_utf8_lossy` (std).
/// Trusted: the result is the named lossy decoding, which is the plain
/// decoding when the bytes are valid UTF-8; what replaces invalid sequences
/// is left unsaid.
#[verifier::external_body]
fn utf8_string_lossy(bytes: &[u8]) -> (r: String)
    ensures
        r@ == utf8_lossy(bytes@),
        valid_utf8(bytes@) ==> r@ == decode_utf8(bytes@),
{
    String::from_utf8_lossy(bytes).into_owned()
}

/// Environment names cannot contain `/`.
pub fn check_env_name(env: &str) -> (r: Result<(), CommandError>)
    ensures
        r is Err <==> env@.contains('/'),
        r matches Err(e) ==> e == CommandError::InvalidEnvName,
{
    let n = env.unicode_len();
    let mut i: usize = 0;
    while i < n
        invariant
            n == env@.len(),
            i <= n,
            forall|j: int| 0 <= j < i ==> env@[j] != '/',
        decreases n - i,
    {
        if env.get_char(i) == '/' {
            return Err(CommandError::InvalidEnvName);
        }
        i = i + 1;
    }
    Ok(())
}

/// The passphrase that registering a local file needs.
pub fn local_passphrase<'a>(passphrase: Option<&'a str>) -> (r: Result<&'a str, CommandError>)
    ensures
        passphrase matches Some(p) ==> r == Ok::<&'a str, CommandError>(p),
        passphrase is None ==> r == Err::<&'a str, CommandError>(CommandError::PassphraseRequired),
{
    match passphrase {
        Some(p) => Ok(p),
        None => Err(CommandError::PassphraseRequired),
    }
}

/// The file name that a remotely fetched environment is stored under.
pub fn remote_filename(filename: Option<String>) -> (r: String)
    ensures
        filename matches Some(f) ==> r@ == f@,
        filename is None ==> r@ == ".env"@,
{
    match filename {
        Some(f) => f,
        None => ".env".to_owned(),
    }
}

/// Checks that the content of a local file is UTF-8 text and seals it under the passphrase.
pub fn encrypt_local_file(content: &[u8], passphrase: &str) -> (r: Result<Vec<u8>, CommandError>)
    ensures
        !valid_utf8(content@) ==> r == Err::<Vec<u8>, CommandError>(CommandError::TargetNotUtf8),
        valid_utf8(content@) && passphrase.spec_bytes().len() > u32::MAX ==> (r matches Err(CommandError::Encrypt(e))
            && e.kind() == SecurityErrorKind::Argon2Failure),
        valid_utf8(content@) && passphrase.spec_bytes().len() <= u32::MAX && content@.len() > MAX_PLAINTEXT_LEN ==> (r matches Err(
            CommandError::Encrypt(e),
        ) && e.kind() == SecurityErrorKind::EncryptionFailure),
        r matches Ok(blob) ==> open_sealed_spec(blob@, passphrase.spec_bytes()) == Ok::<Seq<u8>, SecurityErrorKind>(content@),
        valid_utf8(content@) ==> (r is Ok <==> (passphrase.spec_bytes().len() <= u32::MAX && content@.len() <= MAX_PLAINTEXT_LEN)),
{
    if !is_utf8(content) {
        return Err(CommandError::TargetNotUtf8);
    }
    match encrypt_with_passphrase(content, passphrase) {
        Ok(blob) => Ok(blob),
        Err(e) => Err(CommandError::Encrypt(e)),
    }
}

/// What to do before an environment is overwritten.
pub enum ChangePlan {
    /// Go ahead without asking.
    Proceed,
    /// Show the difference between the old and the new text; then, if
    /// `confirm`, go ahead only when the user agrees, else go ahead.
    ShowDiff { old: String, new: String, confirm: bool },
    /// Ask the user whether to overwrite (the texts cannot be compared).
    ConfirmOverwrite,
}

/// `plan` is what is done when the text `old` (if any) is replaced by `new`:
/// nothing to show when there is no old text or it is unchanged, else the
/// difference of both texts, confirmed unless `force`.
pub open spec fn plan_matches(plan: ChangePlan, old: Option<Seq<char>>, new: Seq<char>, force: bool) -> bool {
    match old {
        None => plan is Proceed,
        Some(o) => if o == new {
            plan is Proceed
        } else {
            plan matches ChangePlan::ShowDiff { old: ro, new: rn, confirm } && ro@ == o && rn@ == new && confirm == !force
        },
    }
}

/// Decides what to do when the text `old` (if any) is replaced by `new`.
pub fn plan_change(old: Option<String>, new: String, force: bool) -> (r: ChangePlan)
    ensures
        plan_matches(r, match old { Some(o) => Some(o@), None => None }, new@, force),
{
    match old {
        None => ChangePlan::Proceed,
        Some(o) => {
            if o == new {
                ChangePlan::Proceed
            } else {
                ChangePlan::ShowDiff { old: o, new, confirm: !force }
            }
        },
    }
}

/// The text sealed in `blob` under `passphrase`: the decryption error, or
/// `None` when the plaintext is not UTF-8.
pub open spec fn sealed_text(blob: Seq<u8>, passphrase: Seq<u8>) -> Result<Option<Seq<char>>, SecurityErrorKind> {
    match open_sealed_spec(blob, passphrase) {
        Err(e) => Err(e),
        Ok(b) => if valid_utf8(b) {
            Ok(Some(decode_utf8(b)))
        } else {
            Ok(None)
        },
    }
}

/// Opens a sealed blob and decodes it as UTF-8 text.
fn open_text(blob: &[u8], passphrase: &str) -> (r: Result<Option<String>, SecurityError>)
    ensures
        match sealed_text(blob@, passphrase.spec_bytes()) {
            Err(k) => r matches Err(e) && e.kind() == k,
            Ok(None) => r matches Ok(None),
            Ok(Some(t)) => r matches Ok(Some(s)) && s@ == t,
        },
{
    let bytes = decrypt_with_passphrase(blob, passphrase)?;
    Ok(utf8_string(bytes))
}

/// Decides what `register` does when an environment may already be stored:
/// `existing` is the stored blob, if any, and `incoming` the blob to store.
/// With a passphrase both are decrypted and compared; without one, an
/// existing environment is overwritten only after confirmation, unless `force`.
pub fn plan_register(existing: Option<&[u8]>, incoming: &[u8], passphrase: Option<&str>, force: bool) -> (r: Result<ChangePlan, CommandError>)
    ensures
        existing is None ==> r matches Ok(ChangePlan::Proceed),
        existing is Some && passphrase is None && force ==> r matches Ok(ChangePlan::Proceed),
        existing is Some && passphrase is None && !force ==> r matches Ok(ChangePlan::ConfirmOverwrite),
        existing matches Some(old_blob) ==> passphrase matches Some(p) ==> match sealed_text(old_blob@, p.spec_bytes()) {
            Err(k) => r matches Err(CommandError::DecryptExisting(e)) && e.kind() == k,
            Ok(None) => r == Err::<ChangePlan, CommandError>(CommandError::ExistingNotUtf8),
            Ok(Some(o)) => match sealed_text(incoming@, p.spec_bytes()) {
                Err(k) => r matches Err(CommandError::DecryptNew(e)) && e.kind() == k,
                Ok(None) => r == Err::<ChangePlan, CommandError>(CommandError::NewNotUtf8),
                Ok(Some(n)) => r matches Ok(plan) && plan_matches(plan, Some(o), n, force),
            },
        },
{
    match existing {
        None => Ok(ChangePlan::Proceed),
        Some(old_blob) => match passphrase {
            None => {
                if force {
                    Ok(ChangePlan::Proceed)
                } else {
                    Ok(ChangePlan::ConfirmOverwrite)
                }
            },
            Some(p) => {
                let old = match open_text(old_blob, p) {
                    Err(e) => return Err(CommandError::DecryptExisting(e)),
                    Ok(None) => return Err(CommandError::ExistingNotUtf8),
                    Ok(Some(t)) => t,
                };
                let new = match open_text(incoming, p) {
                    Err(e) => return Err(CommandError::DecryptNew(e)),
                    Ok(None) => return Err(CommandError::NewNotUtf8),
                    Ok(Some(t)) => t,
                };
                let ghost old_text = old@;
                let ghost new_text = new@;
                let plan = plan_change(Some(old), new, force);
                assert(plan_matches(plan, Some(old_text), new_text, force));
                Ok(plan)
            },
        },
    }
}

/// The text of a stored environment that `set` writes out.
pub fn decode_stored(blob: &[u8], passphrase: &str) -> (r: Result<String, CommandError>)
    ensures
        match sealed_text(blob@, passphrase.spec_bytes()) {
            Err(k) => r matches Err(CommandError::DecryptStored(e)) && e.kind() == k,
            Ok(None) => r == Err::<String, CommandError>(CommandError::StoredNotUtf8),
            Ok(Some(t)) => r matches Ok(s) && s@ == t,
        },
{
    match open_text(blob, passphrase) {
        Err(e) => Err(CommandError::DecryptStored(e)),
        Ok(None) => Err(CommandError::StoredNotUtf8),
        Ok(Some(t)) => Ok(t),
    }
}

/// What `rm` does.
pub enum RemovePlan {
    /// There is nothing to remove.
    NotFound,
    /// Remove without asking.
    Delete,
    /// Show the content and ask twice before removing.
    ConfirmThenDelete { content: String },
}

/// Decides what `rm` does with the stored blob `existing`, if any: its
/// content is decrypted first, then removed at once when `force`, else after
/// confirmation.
pub fn plan_remove(existing: Option<&[u8]>, passphrase: &str, force: bool) -> (r: Result<RemovePlan, CommandError>)
    ensures
        existing is None ==> r matches Ok(RemovePlan::NotFound),
        existing matches Some(blob) ==> match open_sealed_spec(blob@, passphrase.spec_bytes()) {
            Err(k) => r matches Err(CommandError::DecryptForConfirmation(e)) && e.kind() == k,
            Ok(b) => if force {
                r matches Ok(RemovePlan::Delete)
            } else {
                r matches Ok(RemovePlan::ConfirmThenDelete { content }) && content@ == utf8_lossy(b)
            },
        },
        existing matches Some(blob) ==> (open_sealed_spec(blob@, passphrase.spec_bytes()) matches Ok(b)
            ==> (valid_utf8(b) && !force ==> (r matches Ok(RemovePlan::ConfirmThenDelete { content }) && content@
            == decode_utf8(b)))),
{
    match existing {
        None => Ok(RemovePlan::NotFound),
        Some(blob) => {
            let bytes = match decrypt_with_passphrase(blob, passphrase) {
                Ok(b) => b,
                Err(e) => return Err(CommandError::DecryptForConfirmation(e)),
            };
            let content = utf8_string_lossy(bytes.as_slice());
            if force {
                Ok(RemovePlan::Delete)
            } else {
                Ok(RemovePlan::ConfirmThenDelete { content })
            }
        },
    }
}

/// The text that `show` prints for the stored blob `existing`, if any.
pub fn show_text(existing: Option<&[u8]>, passphrase: &str) -> (r: Result<String, CommandError>)
    ensures
        existing is None ==> r == Err::<String, CommandError>(CommandError::EnvironmentNotFound),
        existing matches Some(blob) ==> match open_sealed_spec(blob@, passphrase.spec_bytes()) {
            Err(k) => r matches Err(CommandError::Decrypt(e)) && e.kind() == k,
            Ok(b) => r matches Ok(s) && s@ == utf8_lossy(b),
        },
        existing matches Some(blob) ==> (open_sealed_spec(blob@, passphrase.spec_bytes()) matches Ok(b)
            ==> (valid_utf8(b) ==> (r matches Ok(s) && s@ == decode_utf8(b)))),
{
    match existing {
        None => Err(CommandError::EnvironmentNotFound),
        Some(blob) => match decrypt_with_passphrase(blob, passphrase) {
            Ok(bytes) => Ok(utf8_string_lossy(bytes.as_slice())),
            Err(e) => Err(CommandError::Decrypt(e)),
        },
    }
}

/// Two spaces followed by `name`.
pub open spec fn indented(name: Seq<char>) -> Seq<char> {
    "  "@ + name
}

/// The text of each line.
pub open spec fn lines_view(lines: Seq<String>) -> Seq<Seq<char>> {
    lines.map_values(|l: String| l@)
}

/// One indented line per environment.
pub open spec fn env_lines(envs: Seq<String>) -> Seq<Seq<char>> {
    envs.map_values(|e: String| indented(e@))
}

/// What `list --project` prints: the project, then its environments
/// indented, or a note that it has none.
pub open spec fn project_listing_spec(project: Seq<char>, envs: Seq<String>) -> Seq<Seq<char>> {
    seq![project] + (if envs.len() == 0 {
        seq!["  (no environments)"@]
    } else {
        Seq::<Seq<char>>::empty()
    }) + env_lines(envs)
}

/// Each project followed by its environments, indented.
pub open spec fn groups_lines(groups: Seq<(String, Vec<String>)>) -> Seq<Seq<char>>
    decreases groups.len(),
{
    if groups.len() == 0 {
        Seq::empty()
    } else {
        groups_lines(groups.drop_last()) + seq![groups.last().0@] + env_lines(groups.last().1@)
    }
}

/// What `list` prints for all projects.
pub open spec fn full_listing_spec(groups: Seq<(String, Vec<String>)>) -> Seq<Seq<char>> {
    if groups.len() == 0 {
        seq!["No projects found."@]
    } else {
        groups_lines(groups)
    }
}

/// Appends one indented line per environment.
fn push_env_lines(lines: &mut Vec<String>, envs: &Vec<String>)
    ensures
        lines_view(final(lines)@) == lines_view(old(lines)@) + env_lines(envs@),
{
    let ghost start = lines_view(lines@);
    let mut i: usize = 0;
    while i < envs.len()
        invariant
            i <= envs@.len(),
            lines_view(lines@) == start + env_lines(envs@.take(i as int)),
        decreases envs@.len() - i,
    {
        let mut line: String = "  ".to_owned();
        line.append(envs[i].as_str());
        let ghost before = lines@;
        lines.push(line);
        proof {
            assert(lines_view(lines@) =~= lines_view(before).push(indented(envs@[i as int]@)));
            assert(env_lines(envs@.take(i + 1)) =~= env_lines(envs@.take(i as int)).push(indented(envs@[i as int]@)));
        }
        i = i + 1;
    }
    assert(envs@.take(envs@.len() as int) =~= envs@);
}

/// The lines that `list --project` prints for `project` and its environments.
pub fn project_listing(project: &str, envs: &Vec<String>) -> (r: Vec<String>)
    ensures
        lines_view(r@) == project_listing_spec(project@, envs@),
{
    let mut lines: Vec<String> = Vec::new();
    lines.push(project.to_owned());
    if envs.len() == 0 {
        lines.push("  (no environments)".to_owned());
    }
    let ghost head = lines_view(lines@);
    proof {
        if envs@.len() == 0 {
            assert(head =~= seq![project@] + seq!["  (no environments)"@]);
        } else {
            assert(head =~= seq![project@] + Seq::<Seq<char>>::empty());
        }
    }
    push_env_lines(&mut lines, envs);
    lines
}

/// The lines that `list` prints for every project with its environments.
pub fn full_listing(groups: &Vec<(String, Vec<String>)>) -> (r: Vec<String>)
    ensures
        lines_view(r@) == full_listing_spec(groups@),
{
    let mut lines: Vec<String> = Vec::new();
    if groups.len() == 0 {
        lines.push("No projects found.".to_owned());
        assert(lines_view(lines@) =~= seq!["No projects found."@]);
        return lines;
    }
    let mut i: usize = 0;
    while i < groups.len()
        invariant
            i <= groups@.len(),
            lines_view(lines@) == groups_lines(groups@.take(i as int)),
        decreases groups@.len() - i,
    {
        let ghost before = lines_view(lines@);
        lines.push(groups[i].0.clone());
        assert(lines_view(lines@) =~= before + seq![groups@[i as int].0@]);
        push_env_lines(&mut lines, &groups[i].1);
        proof {
            let t = groups@.take(i + 1);
            assert(t.drop_last() =~= groups@.take(i as int));
            assert(t.last() == groups@[i as int]);
        }
        i = i + 1;
    }
    assert(groups@.take(groups@.len() as int) =~= groups@);
    lines
}

/// What `share` prints: how the other peer registers the shared environment.
pub open spec fn share_message_spec(project: Seq<char>, env: Seq<char>, ticket: Seq<char>) -> Seq<char> {
    "\nTo clone this environment, run:\n  envbro register "@ + project + " "@ + env + " --ticket "@ + ticket
        + "\n\nPress Ctrl+C to stop sharing...\n"@
}

/// The instructions that `share` prints for a ticket.
pub fn share_message(project: &str, env: &str, ticket: &str) -> (r: String)
    ensures
        r@ == share_message_spec(project@, env@, ticket@),
{
    let mut s: String = "\nTo clone this environment, run:\n  envbro register ".to_owned();
    s.append(project);
    s.append(" ");
    s.append(env);
    s.append(" --ticket ");
    s.append(ticket);
    s.append("\n\nPress Ctrl+C to stop sharing...\n");
    s
}

/// How a line of a diff relates the old text to the new one.
#[derive(Clone, Copy, Debug, PartialEq, Eq, Structural)]
pub enum ChangeKind {
    /// The line is in both texts.
    Equal,
    /// The line is only in the old text.
    Delete,
    /// The line is only in the new text.
    Insert,
}

/// The line-by-line changes that `similar` computes between two texts (each
/// line with its line ending).
pub uninterp spec fn line_diff(old: Seq<char>, new: Seq<char>) -> Seq<(ChangeKind, Seq<char>)>;

/// The kinds and texts of a list of changes.
pub open spec fn changes_view(changes: Seq<(ChangeKind, String)>) -> Seq<(ChangeKind, Seq<char>)> {
    changes.map_values(|c: (ChangeKind, String)| (c.0, c.1@))
}

/// The text that the equal and deleted lines make up.
pub open spec fn old_side(changes: Seq<(ChangeKind, Seq<char>)>) -> Seq<char>
    decreases changes.len(),
{
    if changes.len() == 0 {
        Seq::empty()
    } else {
        old_side(changes.drop_last()) + if changes.last().0 != ChangeKind::Insert {
            changes.last().1
        } else {
            Seq::empty()
        }
    }
}

/// The text that the equal and inserted lines make up.
pub open spec fn new_side(changes: Seq<(ChangeKind, Seq<char>)>) -> Seq<char>
    decreases changes.len(),
{
    if changes.len() == 0 {
        Seq::empty()
    } else {
        new_side(changes.drop_last()) + if changes.last().0 != ChangeKind::Delete {
            changes.last().1
        } else {
            Seq::empty()
        }
    }
}

/// Wraps `TextDiff::from_lines` and `TextDiff::iter_all_changes` (similar 2.7),
/// keeping the tag and the text of each change.
/// Trusted: the changes are the named line diff; the equal and deleted lines,
/// in order, make up the old text, and the equal and inserted lines the new one.
#[verifier::external_body]
fn text_line_changes(old: &str, new: &str) -> (r: Vec<(ChangeKind, String)>)
    ensures
        changes_view(r@) == line_diff(old@, new@),
        old_side(changes_view(r@)) == old@,
        new_side(changes_view(r@)) == new@,
{
    let diff = TextDiff::from_lines(old, new);
    let mut changes = Vec::new();
    for change in diff.iter_all_changes() {
        let kind = match change.tag() {
            ChangeTag::Equal => ChangeKind::Equal,
            ChangeTag::Delete => ChangeKind::Delete,
            ChangeTag::Insert => ChangeKind::Insert,
        };
        changes.push((kind, change.value().to_string()));
    }
    changes
}

/// One line of a printed diff: its sign and its text.
pub struct DiffLine {
    pub sign: char,
    pub text: String,
}

/// The sign printed in front of a line of each kind.
pub open spec fn sign_of(kind: ChangeKind) -> char {
    match kind {
        ChangeKind::Equal => ' ',
        ChangeKind::Delete => '-',
        ChangeKind::Insert => '+',
    }
}

/// A line as printed: with a line break added when it has none.
pub open spec fn printed_text(line: Seq<char>) -> Seq<char> {
    if line.len() > 0 && (line.last() == '\n' || line.last() == '\r') {
        line
    } else {
        line + "\n"@
    }
}

/// The lines of the diff between `old` and `new` as they are printed.
pub fn diff_lines(old: &str, new: &str) -> (r: Vec<DiffLine>)
    ensures
        r@.len() == line_diff(old@, new@).len(),
        forall|i: int| 0 <= i < r@.len() ==> (#[trigger] r@[i]).sign == sign_of(line_diff(old@, new@)[i].0),
        forall|i: int| 0 <= i < r@.len() ==> (#[trigger] r@[i]).text@ == printed_text(line_diff(old@, new@)[i].1),
        old_side(line_diff(old@, new@)) == old@,
        new_side(line_diff(old@, new@)) == new@,
{
    let changes = text_line_changes(old, new);
    let ghost cv = changes_view(changes@);
    let mut lines: Vec<DiffLine> = Vec::new();
    let mut i: usize = 0;
    while i < changes.len()
        invariant
            i <= changes@.len(),
            cv == changes_view(changes@),
            lines@.len() == i,
            forall|j: int| 0 <= j < i ==> (#[trigger] lines@[j]).sign == sign_of(cv[j].0),
            forall|j: int| 0 <= j < i ==> (#[trigger] lines@[j]).text@ == printed_text(cv[j].1),
        decreases changes@.len() - i,
    {
        let kind = changes[i].0;
        let sign = match kind {
            ChangeKind::Equal => ' ',
            ChangeKind::Delete => '-',
            ChangeKind::Insert => '+',
        };
        let value = changes[i].1.as_str();
        let n = value.unicode_len();
        let mut text: String = value.to_owned();
        let ends_with_break = n > 0 && (value.get_char(n - 1) == '\n' || value.get_char(n - 1) == '\r');
        if !ends_with_break {
            text.append("\n");
        }
        assert(cv[i as int] == (kind, value@));
        lines.push(DiffLine { sign, text });
        i = i + 1;
    }
    lines
}

/// Replacing a text by the same text never asks anything.
pub proof fn law_unchanged_text_proceeds(plan: ChangePlan, text: Seq<char>, force: bool)
    requires
        plan_matches(plan, Some(text), text, force),
    ensures
        plan is Proceed,
{
}

/// With `force`, replacing a text never asks for confirmation.
pub proof fn law_force_never_confirms(plan: ChangePlan, old: Option<Seq<char>>, new: Seq<char>)
    requires
        plan_matches(plan, old, new, true),
    ensures
        !(plan matches ChangePlan::ShowDiff { confirm, .. } && confirm),
        !(plan is ConfirmOverwrite),
{
}

/// What `set` writes out for a blob is the text of the content that was sealed in it.
pub proof fn law_set_writes_sealed_content(blob: Seq<u8>, passphrase: Seq<u8>, content: Seq<u8>)
    requires
        open_sealed_spec(blob, passphrase) == Ok::<Seq<u8>, SecurityErrorKind>(content),
        valid_utf8(content),
    ensures
        sealed_text(blob, passphrase) == Ok::<Option<Seq<char>>, SecurityErrorKind>(Some(decode_utf8(content))),
{
}


/// Whenever an old text exists and differs from the new one, the difference
/// between exactly these two texts is shown, and confirmation is asked unless
/// `force`; the plan goes ahead silently only when there is no old text or it
/// equals the new one.
pub proof fn law_changed_text_is_shown(plan: ChangePlan, old: Option<Seq<char>>, new: Seq<char>, force: bool)
    requires
        plan_matches(plan, old, new, force),
    ensures
        (old matches Some(o) && o != new) ==> (plan matches ChangePlan::ShowDiff { old: shown_old, new: shown_new, confirm }
            && shown_old@ == old->0 && shown_new@ == new && confirm == !force),
        plan is Proceed <==> (old is None || old == Some(new)),
        !(plan is ConfirmOverwrite),
{
}

/// The text of a sealed blob is obtained only by opening the blob: when
/// opening fails, decoding fails with the same kind of error; when it
/// succeeds, the text is the UTF-8 decoding of exactly the opened bytes, and
/// there is none when they are not UTF-8.
pub proof fn law_text_only_from_opened_blob(blob: Seq<u8>, passphrase: Seq<u8>)
    ensures
        open_sealed_spec(blob, passphrase) matches Err(k) ==> sealed_text(blob, passphrase)
            == Err::<Option<Seq<char>>, SecurityErrorKind>(k),
        open_sealed_spec(blob, passphrase) matches Ok(b) ==> (valid_utf8(b) ==> sealed_text(blob, passphrase)
            == Ok::<Option<Seq<char>>, SecurityErrorKind>(Some(decode_utf8(b)))),
        open_sealed_spec(blob, passphrase) matches Ok(b) ==> (!valid_utf8(b) ==> sealed_text(blob, passphrase)
            == Ok::<Option<Seq<char>>, SecurityErrorKind>(None)),
        sealed_text(blob, passphrase) is Ok <==> open_sealed_spec(blob, passphrase) is Ok,
{
}

/// Where the lines of group `i` start in the listing of all projects: after
/// one line per earlier project and one per environment of it.
pub open spec fn listing_offset(groups: Seq<(String, Vec<String>)>, i: int) -> int
    decreases i,
{
    if i <= 0 {
        0
    } else {
        listing_offset(groups, i - 1) + 1 + groups[i - 1].1@.len()
    }
}

proof fn lemma_offset_prefix(groups: Seq<(String, Vec<String>)>, n: int, i: int)
    requires
        0 <= i <= n <= groups.len(),
    ensures
        listing_offset(groups.take(n), i) == listing_offset(groups, i),
    decreases i,
{
    if i > 0 {
        lemma_offset_prefix(groups, n, i - 1);
    }
}

proof fn lemma_offset_grows(groups: Seq<(String, Vec<String>)>, i: int, j: int)
    requires
        0 <= i <= j,
    ensures
        listing_offset(groups, i) <= listing_offset(groups, j),
        i < j ==> listing_offset(groups, i) + 1 + groups[i].1@.len() <= listing_offset(groups, j),
    decreases j,
{
    if i < j {
        lemma_offset_grows(groups, i, j - 1);
    }
}

proof fn lemma_groups_lines_layout(groups: Seq<(String, Vec<String>)>)
    ensures
        groups_lines(groups).len() == listing_offset(groups, groups.len() as int),
        forall|i: int| 0 <= i < groups.len() ==> groups_lines(groups)[#[trigger] listing_offset(groups, i)] == groups[i].0@,
        forall|i: int, j: int| 0 <= i < groups.len() && 0 <= j < groups[i].1@.len()
            ==> groups_lines(groups)[listing_offset(groups, i) + 1 + j] == "  "@ + (#[trigger] groups[i].1@[j])@,
    decreases groups.len(),
{
    if groups.len() > 0 {
        let n = groups.len() - 1;
        let front = groups.drop_last();
        lemma_groups_lines_layout(front);
        assert(front =~= groups.take(n));
        let g = groups_lines(groups);
        let f = groups_lines(front);
        assert(listing_offset(front, n) == listing_offset(groups, n)) by {
            lemma_offset_prefix(groups, n, n);
        }
        let tail = seq![groups.last().0@] + env_lines(groups.last().1@);
        assert(g == f + tail);
        assert(f.len() == listing_offset(groups, n));
        assert forall|i: int| 0 <= i < groups.len() implies g[#[trigger] listing_offset(groups, i)] == groups[i].0@ by {
            if i < n {
                lemma_offset_prefix(groups, n, i);
                lemma_offset_grows(groups, i, n);
                lemma_offset_grows(groups, 0, i);
                assert(front[i] == groups[i]);
                assert(f[listing_offset(front, i)] == front[i].0@);
                assert(g[listing_offset(groups, i)] == f[listing_offset(groups, i)]);
            } else {
                assert(g[listing_offset(groups, i)] == tail[0]);
            }
        }
        assert forall|i: int, j: int| 0 <= i < groups.len() && 0 <= j < groups[i].1@.len()
            implies g[listing_offset(groups, i) + 1 + j] == "  "@ + (#[trigger] groups[i].1@[j])@ by {
            if i < n {
                lemma_offset_prefix(groups, n, i);
                lemma_offset_grows(groups, i, n);
                lemma_offset_grows(groups, 0, i);
                assert(front[i] == groups[i]);
                assert(front[i].1@[j] == groups[i].1@[j]);
                assert(f[listing_offset(front, i) + 1 + j] == "  "@ + front[i].1@[j]@);
                assert(g[listing_offset(groups, i) + 1 + j] == f[listing_offset(groups, i) + 1 + j]);
            } else {
                assert(env_lines(groups.last().1@)[j] == indented(groups[i].1@[j]@));
                assert(g[listing_offset(groups, i) + 1 + j] == tail[1 + j]);
            }
        }
    }
}

/// The listing of all projects names each project once, in order, with its
/// environments right after it, each indented by two spaces; it has one line
/// per project plus one per environment, or a single note when there are no
/// projects.
pub proof fn law_full_listing_layout(groups: Seq<(String, Vec<String>)>)
    ensures
        groups.len() == 0 ==> full_listing_spec(groups) == seq!["No projects found."@],
        groups.len() > 0 ==> full_listing_spec(groups).len() == listing_offset(groups, groups.len() as int),
        forall|i: int| 0 <= i < groups.len() ==> full_listing_spec(groups)[#[trigger] listing_offset(groups, i)] == groups[i].0@,
        forall|i: int, j: int| 0 <= i < groups.len() && 0 <= j < groups[i].1@.len()
            ==> full_listing_spec(groups)[listing_offset(groups, i) + 1 + j] == "  "@ + (#[trigger] groups[i].1@[j])@,
{
    if groups.len() > 0 {
        lemma_groups_lines_layout(groups);
    }
}

/// The listing of one project is its name, then each of its environments
/// indented by two spaces, in order; a project without environments gets a note.
pub proof fn law_project_listing_layout(project: Seq<char>, envs: Seq<String>)
    ensures
        project_listing_spec(project, envs)[0] == project,
        envs.len() == 0 ==> project_listing_spec(project, envs) == seq![project, "  (no environments)"@],
        envs.len() > 0 ==> project_listing_spec(project, envs).len() == 1 + envs.len(),
        envs.len() > 0 ==> forall|j: int| 0 <= j < envs.len() ==> project_listing_spec(project, envs)[1 + j] == "  "@ + (#[trigger] envs[j])@,
{
    if envs.len() == 0 {
        assert(project_listing_spec(project, envs) =~= seq![project, "  (no environments)"@]);
    } else {
        assert forall|j: int| 0 <= j < envs.len() implies project_listing_spec(project, envs)[1 + j] == "  "@ + (#[trigger] envs[j])@ by {
            assert(env_lines(envs)[j] == indented(envs[j]@));
        }
    }
}

/// Every printed diff line starts with the line's own text and ends in a line
/// break; at most the one break is added. Deleted, inserted and equal lines
/// get three different signs.
pub proof fn law_printed_line_shape(line: Seq<char>)
    ensures
        line.is_prefix_of(printed_text(line)),
        printed_text(line).len() <= line.len() + 1,
        printed_text(line).len() > 0,
        printed_text(line).last() == '\n' || printed_text(line).last() == '\r',
        sign_of(ChangeKind::Delete) != sign_of(ChangeKind::Insert),
        sign_of(ChangeKind::Delete) != sign_of(ChangeKind::Equal),
        sign_of(ChangeKind::Insert) != sign_of(ChangeKind::Equal),
{
    reveal_strlit("\n");
    assert(line.is_prefix_of(line + "\n"@)) by {
        assert((line + "\n"@).subrange(0, line.len() as int) =~= line);
    }
}

} // verus!
