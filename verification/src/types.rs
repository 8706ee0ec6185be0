//! Value model: chat identifiers and file attachments.

use vstd::prelude::*;

verus! {

/// Model of a chat identifier.
pub enum ChatIdModel {
    Id(int),
    ChannelUsername(Seq<char>),
}

/// Identifier of a chat: either a unique integer id or a channel username
/// in the format `@channelusername`.
///
/// Exactly one representation is active; serialization picks the matching
/// wire encoding (a bare number, or the string with its leading `@` kept
/// verbatim).
#[derive(Debug, PartialEq, Eq)]
pub enum ChatId {
    /// A chat identifier.
    Id(i64),
    /// A channel username (in the format @channelusername).
    ChannelUsername(String),
}

impl View for ChatId {
    type V = ChatIdModel;

    open spec fn view(&self) -> ChatIdModel {
        match self {
            ChatId::Id(n) => ChatIdModel::Id(*n as int),
            ChatId::ChannelUsername(u) => ChatIdModel::ChannelUsername(u@),
        }
    }
}

impl Clone for ChatId {
    fn clone(&self) -> (r: ChatId)
        ensures
            r@ == self@,
    {
        match self {
            ChatId::Id(n) => ChatId::Id(*n),
            ChatId::ChannelUsername(u) => ChatId::ChannelUsername(u.clone()),
        }
    }
}

impl From<i64> for ChatId {
    fn from(v: i64) -> (r: ChatId) {
        ChatId::Id(v)
    }
}

impl vstd::std_specs::convert::FromSpecImpl<i64> for ChatId {
    open spec fn obeys_from_spec() -> bool {
        true
    }

    open spec fn from_spec(v: i64) -> ChatId {
        ChatId::Id(v)
    }
}

impl From<String> for ChatId {
    fn from(v: String) -> (r: ChatId) {
        ChatId::ChannelUsername(v)
    }
}

impl vstd::std_specs::convert::FromSpecImpl<String> for ChatId {
    open spec fn obeys_from_spec() -> bool {
        true
    }

    open spec fn from_spec(v: String) -> ChatId {
        ChatId::ChannelUsername(v)
    }
}

/// Model of a file attachment.
pub enum InputFileModel {
    File(Seq<char>),
    Memory { file_name: Seq<char>, data: Seq<u8> },
    Url(Seq<char>),
    FileId(Seq<char>),
}

impl InputFileModel {
    /// True when the attachment carries content that must travel as a
    /// binary multipart part (raw bytes or a local file).
    pub open spec fn needs_upload(self) -> bool {
        match self {
            InputFileModel::File(_) => true,
            InputFileModel::Memory { .. } => true,
            InputFileModel::Url(_) => false,
            InputFileModel::FileId(_) => false,
        }
    }

    /// The plain string an attachment that needs no upload serializes to.
    pub open spec fn reference(self) -> Seq<char> {
        match self {
            InputFileModel::Url(u) => u,
            InputFileModel::FileId(i) => i,
            InputFileModel::File(p) => p,
            InputFileModel::Memory { file_name, .. } => file_name,
        }
    }
}

/// A file to attach to a request, in exactly one of four forms.
///
/// The form decides the transport shape: raw bytes or a local path must be
/// uploaded as a binary multipart part; a file id or a URL is a plain string
/// reference, so JSON transport suffices.
#[derive(Debug, PartialEq, Eq)]
pub enum InputFile {
    /// A path on the local filesystem; the transport layer reads it and
    /// uploads the bytes as a binary part.
    File(String),
    /// Raw bytes held in memory, uploaded under the given file name.
    Memory { file_name: String, data: Vec<u8> },
    /// A URL the remote service fetches itself; sent as a plain string.
    Url(String),
    /// An identifier of a file already known to the remote service; sent as
    /// a plain string.
    FileId(String),
}

impl View for InputFile {
    type V = InputFileModel;

    open spec fn view(&self) -> InputFileModel {
        match self {
            InputFile::File(p) => InputFileModel::File(p@),
            InputFile::Memory { file_name, data } => InputFileModel::Memory {
                file_name: file_name@,
                data: data@,
            },
            InputFile::Url(u) => InputFileModel::Url(u@),
            InputFile::FileId(i) => InputFileModel::FileId(i@),
        }
    }
}

impl Clone for InputFile {
    fn clone(&self) -> (r: InputFile)
        ensures
            r@ == self@,
    {
        match self {
            InputFile::File(p) => InputFile::File(p.clone()),
            InputFile::Memory { file_name, data } => InputFile::Memory {
                file_name: file_name.clone(),
                data: vstd::slice::slice_to_vec(data.as_slice()),
            },
            InputFile::Url(u) => InputFile::Url(u.clone()),
            InputFile::FileId(i) => InputFile::FileId(i.clone()),
        }
    }
}

impl InputFile {
    /// True when this attachment carries content that must travel as a
    /// binary multipart part (raw bytes or a local file).
    pub open spec fn spec_needs_upload(&self) -> bool {
        self@.needs_upload()
    }

    /// Decides whether this attachment forces multipart transport.
    pub fn needs_upload(&self) -> (r: bool)
        ensures
            r == self.spec_needs_upload(),
    {
        match self {
            InputFile::File(_) => true,
            InputFile::Memory { .. } => true,
            InputFile::Url(_) => false,
            InputFile::FileId(_) => false,
        }
    }

}

} // verus!
