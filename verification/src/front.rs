//! The front of the store: what each request is answered with, and the rule
//! that nothing is saved before its signature was verified.

use crate::gate::{Verificator, VerifyError};
use crate::identity::object_name;
use crate::medium::{Object, Shelf};
use crate::store::{saved, Store};
use vstd::prelude::*;
use vstd::string::StringExecFns;

verus! {

/// What a request is answered with.
#[derive(Clone, Copy, Debug, PartialEq, Eq, Structural)]
pub enum Reply {
    /// The object's bytes.
    Object,
    /// Done, with nothing to say.
    NoContent,
    /// A read or a delete found no object.
    NotFound,
    /// The payload of an upload was not verified as signed by the keyring.
    Unsigned,
    /// An admitted payload could not be saved.
    StoreFailed,
}

/// What an upload does once its payload went through verification.
#[derive(Clone, Copy, Debug, PartialEq, Eq, Structural)]
pub enum Upload {
    /// Save the payload under the key.
    Save,
    /// Answer, and save nothing.
    Refuse(Reply),
}

impl Reply {
    /// The status code of the answer.
    pub open spec fn code(self) -> u16 {
        match self {
            Reply::Object => 200,
            Reply::NoContent => 204,
            Reply::NotFound => 404,
            Reply::Unsigned => 401,
            Reply::StoreFailed => 500,
        }
    }

    /// The text of the answer, where it has one.
    pub open spec fn text(self) -> Seq<char> {
        match self {
            Reply::Object => ""@,
            Reply::NoContent => ""@,
            Reply::NotFound => "no such file\n"@,
            Reply::Unsigned => "request body must signed by registered key\n"@,
            Reply::StoreFailed => "failed to store file\n"@,
        }
    }

    /// The status code of the answer.
    pub fn status(&self) -> (code: u16)
        ensures
            code == self.code(),
    {
        match self {
            Reply::Object => 200,
            Reply::NoContent => 204,
            Reply::NotFound => 404,
            Reply::Unsigned => 401,
            Reply::StoreFailed => 500,
        }
    }

    /// The text of the answer; an object and an empty answer have none.
    pub fn body(&self) -> (text: &'static str)
        ensures
            text@ == self.text(),
    {
        match self {
            Reply::Object => "",
            Reply::NoContent => "",
            Reply::NotFound => "no such file\n",
            Reply::Unsigned => "request body must signed by registered key\n",
            Reply::StoreFailed => "failed to store file\n",
        }
    }
}

/// The media type that objects are served with.
pub fn content_type() -> (media: &'static str)
    ensures
        media@ == "application/pgp"@,
{
    "application/pgp"
}

/// The host that the usage text names where the request names none.
pub open spec fn default_host() -> Seq<char> {
    "$YOUR_SERVER_HOST"@
}

/// The usage text for a server that is reached as `host`.
pub open spec fn usage_text(host: Seq<char>) -> Seq<char> {
    "upload:   $ gpg -s </path/to/file | curl http://"@ + host
        + "/file-name --data-binary @-\ndownload: $ curl http://"@ + host
        + "/file-name\ndelete:   $ curl -XDELETE http://"@ + host + "/file-name\n"@
}

/// The answer to a request for the root: how to upload, download and delete,
/// with the host as the request named it.
pub fn index(host: Option<&str>) -> (text: String)
    ensures
        text@ == usage_text(
            match host {
                Some(named) => named@,
                None => default_host(),
            },
        ),
{
    let host = match host {
        Some(named) => named,
        None => "$YOUR_SERVER_HOST",
    };
    let mut text = String::from_str("upload:   $ gpg -s </path/to/file | curl http://");
    text.append(host);
    text.append("/file-name --data-binary @-\ndownload: $ curl http://");
    text.append(host);
    text.append("/file-name\ndelete:   $ curl -XDELETE http://");
    text.append(host);
    text.append("/file-name\n");
    text
}

/// The answer to a read, by whether the store handed out the object.
pub fn get_file(found: bool) -> (reply: Reply)
    ensures
        reply == if found {
            Reply::Object
        } else {
            Reply::NotFound
        },
{
    if found {
        Reply::Object
    } else {
        Reply::NotFound
    }
}

/// What an upload does after verification: the payload is saved only where
/// it was verified.
pub fn post_file(verified: &Result<(), VerifyError>) -> (next: Upload)
    ensures
        next == if verified is Ok {
            Upload::Save
        } else {
            Upload::Refuse(Reply::Unsigned)
        },
{
    match verified {
        Ok(_) => Upload::Save,
        Err(_) => Upload::Refuse(Reply::Unsigned),
    }
}

/// The answer to an upload whose payload was admitted, by whether the store
/// saved it.
pub fn post_file_saved(saved: bool) -> (reply: Reply)
    ensures
        reply == if saved {
            Reply::NoContent
        } else {
            Reply::StoreFailed
        },
{
    if saved {
        Reply::NoContent
    } else {
        Reply::StoreFailed
    }
}

/// The answer to a delete, by whether the store removed the object: an
/// object that is not there is not found, as for a read.
pub fn delete_file(deleted: bool) -> (reply: Reply)
    ensures
        reply == if deleted {
            Reply::NoContent
        } else {
            Reply::NotFound
        },
{
    if deleted {
        Reply::NoContent
    } else {
        Reply::NotFound
    }
}

/// The answer to an upload, by how the verification of its payload ended.
pub open spec fn upload_reply(verified: Result<(), VerifyError>) -> Reply {
    if verified is Ok {
        Reply::NoContent
    } else {
        Reply::Unsigned
    }
}

/// The table after an upload at the instant `now`: the payload is saved
/// where it was verified, and nothing has changed where it was not.
pub open spec fn uploaded(
    verified: Result<(), VerifyError>,
    table: Map<Seq<char>, Object>,
    name: Seq<char>,
    data: Seq<u8>,
    now: u128,
) -> Map<Seq<char>, Object> {
    if verified is Ok {
        saved(table, name, data, now)
    } else {
        table
    }
}

/// Carries out an upload to a medium in memory once its payload went through
/// verification: a verified payload is saved under the key as it came, and
/// any other is refused and leaves the medium as it was.
pub fn finish_upload(
    verified: &Result<(), VerifyError>,
    store: &Store,
    shelf: &mut Shelf,
    now: u128,
    key: &str,
    signed: &[u8],
) -> (reply: Reply)
    requires
        old(shelf).wf(),
    ensures
        final(shelf).wf(),
        reply == upload_reply(*verified),
        final(shelf)@ == uploaded(*verified, old(shelf)@, object_name(key@), signed@, now),
{
    match post_file(verified) {
        Upload::Refuse(reply) => reply,
        Upload::Save => {
            let stored = store.save(shelf, now, key, signed);
            post_file_saved(stored.is_ok())
        },
    }
}

/// An upload to a medium in memory at the instant `now`: the signed message
/// is verified against the keyring, and is saved under the key as it came
/// only where that succeeded. A refused upload changes nothing.
pub fn upload(
    keyring: &Verificator,
    store: &Store,
    shelf: &mut Shelf,
    now: u128,
    key: &str,
    signed: &[u8],
) -> (reply: Reply)
    requires
        old(shelf).wf(),
    ensures
        final(shelf).wf(),
        reply == Reply::NoContent || reply == Reply::Unsigned,
        reply == Reply::NoContent ==> final(shelf)@ == saved(
            old(shelf)@,
            object_name(key@),
            signed@,
            now,
        ),
        reply == Reply::Unsigned ==> final(shelf)@ == old(shelf)@,
{
    let verified = keyring.verify_bytes(signed);
    finish_upload(&verified, store, shelf, now, key, signed)
}

} // verus!
