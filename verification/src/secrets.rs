//! PDF passwords on their way from the user to the writer.

use crate::processing::opt_text;
use crate::xml::utf8_text;
use vstd::prelude::*;
use vstd::string::StringExecFns;
use vstd::utf8::{decode_utf8, valid_utf8};

verus! {

/// The most bytes of password input that are read.
pub const MAX_PDF_PASSWORD_BYTES: usize = 4096;

/// The bytes without one line ending.
pub open spec fn without_line_ending(bytes: Seq<u8>) -> Seq<u8> {
    let n = bytes.len() as int;
    if n >= 2 && bytes[n - 2] == 13 && bytes[n - 1] == 10 {
        bytes.take(n - 2)
    } else if n >= 1 && (bytes[n - 1] == 13 || bytes[n - 1] == 10) {
        bytes.take(n - 1)
    } else {
        bytes
    }
}

/// Takes one line ending off the end.
pub fn trim_one_line_ending(bytes: &mut Vec<u8>)
    ensures
        final(bytes)@.len() <= old(bytes)@.len() <= final(bytes)@.len() + 2,
        final(bytes)@ == old(bytes)@.take(final(bytes)@.len() as int),
        old(bytes)@.len() == final(bytes)@.len() + 2 ==> old(bytes)@[final(bytes)@.len() as int] == 13
            && old(bytes)@.last() == 10,
        old(bytes)@.len() == final(bytes)@.len() + 1 ==> old(bytes)@.last() == 13 || old(bytes)@.last() == 10,
        old(bytes)@.len() == final(bytes)@.len() && old(bytes)@.len() > 0 ==> old(bytes)@.last() != 13
            && old(bytes)@.last() != 10,
        final(bytes)@ == without_line_ending(old(bytes)@),
{
    let n: usize = bytes.len();
    let ghost before = bytes@;
    if n >= 2 && bytes[n - 2] == 13 && bytes[n - 1] == 10 {
        bytes.truncate(n - 2);
        assert(bytes@ =~= before.take(n - 2));
    } else if n >= 1 && (bytes[n - 1] == 13 || bytes[n - 1] == 10) {
        bytes.truncate(n - 1);
        assert(bytes@ =~= before.take(n - 1));
    }
}

/// The password in password input, or why there is none.
pub open spec fn password_in(bytes: Seq<u8>) -> Result<Seq<char>, Seq<char>> {
    let line = without_line_ending(bytes);
    if line.len() == 0 {
        Err("password input must not be empty"@)
    } else if line.contains(0) {
        Err("password input must not contain NUL bytes"@)
    } else if !valid_utf8(line) {
        Err("password input must be valid UTF-8"@)
    } else {
        Ok(decode_utf8(line))
    }
}

/// What a text result holds.
pub open spec fn text_outcome(r: Result<String, String>) -> Result<Seq<char>, Seq<char>> {
    match r {
        Ok(text) => Ok(text@),
        Err(text) => Err(text@),
    }
}

fn holds_nul(bytes: &Vec<u8>) -> (r: bool)
    ensures
        r == bytes@.contains(0),
{
    let mut i: usize = 0;
    while i < bytes.len()
        invariant
            i <= bytes@.len(),
            forall|j: int| 0 <= j < i ==> bytes@[j] != 0,
        decreases bytes@.len() - i,
    {
        if bytes[i] == 0 {
            assert(bytes@[i as int] == 0);
            return true;
        }
        i += 1;
    }
    false
}

/// Overwrites bytes with zeros, and drops them.
fn wipe(bytes: &mut Vec<u8>)
    ensures
        final(bytes)@.len() == 0,
{
    let mut i: usize = 0;
    while i < bytes.len()
        invariant
            i <= bytes@.len(),
        decreases bytes@.len() - i,
    {
        bytes.set(i, 0);
        i += 1;
    }
    bytes.clear();
}

/// Makes a password of password input; nothing of the input is left behind.
pub fn password_from_bytes(bytes: &mut Vec<u8>) -> (r: Result<String, String>)
    ensures
        text_outcome(r) == password_in(old(bytes)@),
        final(bytes)@.len() == 0,
{
    trim_one_line_ending(bytes);
    let result: Result<String, String> = if bytes.len() == 0 {
        Err("password input must not be empty".to_owned())
    } else if holds_nul(bytes) {
        Err("password input must not contain NUL bytes".to_owned())
    } else {
        match utf8_text(bytes.as_slice()) {
            Some(text) => Ok(text),
            None => Err("password input must be valid UTF-8".to_owned()),
        }
    };
    wipe(bytes);
    result
}

/// The password in input that was read, at most one byte past the limit.
pub open spec fn password_read(input: Result<Seq<u8>, Seq<char>>) -> Result<Seq<char>, Seq<char>> {
    match input {
        Err(error) => Err("could not read password input: "@ + error),
        Ok(bytes) => if bytes.len() > MAX_PDF_PASSWORD_BYTES {
            Err("password input exceeds the 4096 byte limit"@)
        } else {
            password_in(bytes)
        },
    }
}

/// Makes a password of input that was read, at most one byte past the limit.
pub fn read_pdf_password(input: Result<Vec<u8>, String>) -> (r: Result<String, String>)
    ensures
        input is Ok && input->Ok_0@.len() > 4096 ==> r is Err,
        input is Err ==> r is Err,
        r is Ok ==> r->Ok_0@.len() > 0,
        text_outcome(r) == password_read(
            match input {
                Ok(bytes) => Ok(bytes@),
                Err(error) => Err(error@),
            },
        ),
{
    match input {
        Err(error) => {
            let mut message = "could not read password input: ".to_owned();
            message.append(error.as_str());
            Err(message)
        },
        Ok(bytes) => {
            let mut bytes = bytes;
            if bytes.len() > MAX_PDF_PASSWORD_BYTES {
                wipe(&mut bytes);
                return Err("password input exceeds the 4096 byte limit".to_owned());
            }
            password_from_bytes(&mut bytes)
        },
    }
}

/// Where a password comes from.
#[derive(Debug)]
pub enum PasswordSource {
    /// The command line, which may give none.
    Argument(Option<String>),
    /// A file that has to be read.
    File,
}

/// Where a password comes from.
pub enum Origin {
    Argument(Option<Seq<char>>),
    File,
}

impl View for PasswordSource {
    type V = Origin;

    open spec fn view(&self) -> Origin {
        match self {
            PasswordSource::Argument(password) => Origin::Argument(opt_text(*password)),
            PasswordSource::File => Origin::File,
        }
    }
}

/// Where the password comes from: a password on the command line excludes a file, and has to be
/// allowed.
pub open spec fn password_source(
    password: Option<Seq<char>>,
    has_file: bool,
    allow_insecure_argv: bool,
) -> Result<Origin, Seq<char>> {
    if password is Some && has_file {
        Err("--pdf-password conflicts with --pdf-password-file"@)
    } else if password is Some && !allow_insecure_argv {
        Err("--pdf-password requires --allow-insecure-password-argv"@)
    } else if has_file {
        Ok(Origin::File)
    } else {
        Ok(Origin::Argument(password))
    }
}

/// Drops a password as soon as it is no longer needed.
pub fn clear_pdf_password(password: &mut Option<String>)
    ensures
        *final(password) is None,
{
    *password = None;
}

/// Decides where the password comes from.
pub fn resolve_pdf_password(
    password: Option<String>,
    has_file: bool,
    allow_insecure_password_argv: bool,
) -> (r: Result<PasswordSource, String>)
    ensures
        r is Ok && password is Some ==> !has_file && allow_insecure_password_argv,
        r is Ok && password is Some ==> (r->Ok_0 matches PasswordSource::Argument(Some(kept)) && kept@
            == password->0@),
        password is None && has_file ==> r is Ok && r->Ok_0 is File,
        password is None && !has_file ==> (r matches Ok(PasswordSource::Argument(None))),
        password is Some && !has_file && allow_insecure_password_argv ==> r is Ok,
        match password_source(opt_text(password), has_file, allow_insecure_password_argv) {
            Ok(source) => r is Ok && r->Ok_0@ == source,
            Err(text) => r is Err && r->Err_0@ == text,
        },
{
    let mut password = password;
    if password.is_some() && has_file {
        clear_pdf_password(&mut password);
        return Err("--pdf-password conflicts with --pdf-password-file".to_owned());
    }
    if password.is_some() && !allow_insecure_password_argv {
        clear_pdf_password(&mut password);
        return Err("--pdf-password requires --allow-insecure-password-argv".to_owned());
    }
    if has_file {
        Ok(PasswordSource::File)
    } else {
        Ok(PasswordSource::Argument(password))
    }
}

/// A password on the command line is used only where that was asked for.
pub proof fn argument_passwords_are_opted_into(
    password: Seq<char>,
    has_file: bool,
    allow_insecure_argv: bool,
)
    ensures
        password_source(Some(password), has_file, allow_insecure_argv) is Ok
            ==> allow_insecure_argv && !has_file && password_source(
            Some(password),
            has_file,
            allow_insecure_argv,
        ) == Ok::<Origin, Seq<char>>(Origin::Argument(Some(password))),
{
}

/// A password that is read back holds what was typed: text in UTF-8 without NUL, with or without
/// one line ending behind it.
pub proof fn typed_passwords_are_read(line: Seq<u8>, ending: Seq<u8>)
    requires
        line.len() > 0,
        line.last() != 13,
        line.last() != 10,
        !line.contains(0),
        valid_utf8(line),
        ending == Seq::<u8>::empty() || ending == seq![10u8] || ending == seq![13u8] || ending
            == seq![13u8, 10u8],
    ensures
        password_in(line + ending) == Ok::<Seq<char>, Seq<char>>(decode_utf8(line)),
{
    let all = line + ending;
    let n = all.len() as int;
    assert(line.last() == all[line.len() - 1]);
    if ending.len() == 0 {
        assert(all =~= line);
    } else {
        assert(all[n - 1] == ending.last());
        if ending.len() == 2 {
            assert(all[n - 2] == 13);
        } else {
            assert(all[n - 2] == line.last());
        }
    }
    assert(without_line_ending(all) =~= line);
}

} // verus!
