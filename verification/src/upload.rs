use crate::ids::{hyphenated, id_text};
use crate::text::{lowercase, opt_str, opt_text, same_text};
use std::path::Path;
use vstd::prelude::*;
use vstd::string::StringExecFns;

verus! {

/// The largest upload that is taken, in bytes: ten mebibytes.
pub const MAX_FILE_SIZE: usize = 10 * 1024 * 1024;

/// The name of the form field that carries the file.
pub const FILE_FIELD: &'static str = "file";

/// The directory in which uploads are kept.
pub const UPLOADS_DIR: &'static str = "uploads";

/// Whether `name` is the name of a file and nothing more: it holds no
/// separator of any platform, and is neither `.` nor `..`.
pub open spec fn is_plain_name(name: Seq<char>) -> bool {
    &&& !name.contains('/')
    &&& !name.contains('\\')
    &&& !name.contains(':')
    &&& name != seq!['.']
    &&& name != seq!['.', '.']
}

/// The place of the last dot in `name`; -1 where it holds none.
pub open spec fn last_dot(name: Seq<char>) -> int
    decreases name.len(),
{
    if name.len() == 0 {
        -1
    } else if name.last() == '.' {
        name.len() - 1
    } else {
        last_dot(name.drop_last())
    }
}

/// The extension of a plain name: what follows its last dot; none where
/// it holds no dot or its only dot is its first character.
pub open spec fn plain_extension(name: Seq<char>) -> Option<Seq<char>> {
    if last_dot(name) <= 0 {
        None
    } else {
        Some(name.skip(last_dot(name) + 1))
    }
}

/// What holds of the extension `found` in the name `file_name` wherever
/// it is looked for: a name without a dot has none, an extension holds
/// no dot, and a plain name has its plain extension.
pub open spec fn findable(file_name: Seq<char>, found: Option<Seq<char>>) -> bool {
    &&& !file_name.contains('.') ==> found is None
    &&& found matches Some(extension) ==> !extension.contains('.')
    &&& is_plain_name(file_name) ==> found == plain_extension(file_name)
}

/// `std::path::Path::extension` on the path that `file_name` spells: the
/// part of its last component after the last dot, where there is one.
/// How a name falls into components depends on the platform. On every
/// platform a name without a dot has no extension, and an extension is
/// what follows a last dot, so it holds none. A name without `/`, `\`
/// and `:` that is neither `.` nor `..` is one component on every
/// platform: it has no extension where it holds no dot or begins with
/// its only dot, else what follows its last dot.
#[verifier::external_body]
fn path_extension(file_name: &str) -> (extension: Option<String>)
    ensures
        findable(file_name@, opt_text(extension)),
{
    match Path::new(file_name).extension() {
        Some(extension) => match extension.to_str() {
            Some(text) => Some(text.to_string()),
            None => None,
        },
        None => None,
    }
}

/// Whether files with this extension are taken.
pub open spec fn is_allowed(extension: Seq<char>) -> bool {
    ||| extension == "pdf"@
    ||| extension == "docx"@
    ||| extension == "png"@
    ||| extension == "jpg"@
    ||| extension == "jpeg"@
    ||| extension == "webp"@
}

/// Whether files with this extension are taken.
pub fn extension_allowed(extension: &str) -> (allowed: bool)
    ensures
        allowed == is_allowed(extension@),
{
    same_text(extension, "pdf") || same_text(extension, "docx") || same_text(extension, "png")
        || same_text(extension, "jpg") || same_text(extension, "jpeg") || same_text(
        extension,
        "webp",
    )
}

/// How an upload is answered.
#[derive(Debug, Clone, PartialEq, Eq)]
pub enum UploadReply {
    /// 200: the file is stored and can be fetched under this address.
    Stored(String),
    /// 400: files with this extension are not taken.
    TypeNotAllowed(String),
    /// 413: the file is larger than is taken.
    TooLarge,
    /// 500: the directory for uploads could not be made.
    NoUploadsDir,
    /// 500: the file could not be written, for this reason.
    SaveFailed(String),
    /// 400: the request is no well-formed form, for this reason.
    BadForm(String),
    /// 400: the form carried no file.
    NoFile,
}

impl UploadReply {
    /// The status code of the reply.
    pub open spec fn code(self) -> u16 {
        match self {
            UploadReply::Stored(_) => 200,
            UploadReply::TypeNotAllowed(_) => 400,
            UploadReply::TooLarge => 413,
            UploadReply::NoUploadsDir => 500,
            UploadReply::SaveFailed(_) => 500,
            UploadReply::BadForm(_) => 400,
            UploadReply::NoFile => 400,
        }
    }

    /// The text that the reply carries: for a stored file its address,
    /// else what went wrong.
    pub open spec fn text(self) -> Seq<char> {
        match self {
            UploadReply::Stored(url) => url@,
            UploadReply::TypeNotAllowed(extension) => "File type ."@ + extension@
                + " not allowed"@,
            UploadReply::TooLarge => "File too large (Max 10MB)"@,
            UploadReply::NoUploadsDir => "Server configuration error (Uploads dir)"@,
            UploadReply::SaveFailed(reason) => "Failed to save file: "@ + reason@,
            UploadReply::BadForm(reason) => "Multipart structure error: "@ + reason@,
            UploadReply::NoFile => "File upload failed: No 'file' field found in request"@,
        }
    }

    /// The status code of the reply.
    pub fn status_code(&self) -> (code: u16)
        ensures
            code == self.code(),
    {
        match self {
            UploadReply::Stored(_) => 200,
            UploadReply::TypeNotAllowed(_) => 400,
            UploadReply::TooLarge => 413,
            UploadReply::NoUploadsDir => 500,
            UploadReply::SaveFailed(_) => 500,
            UploadReply::BadForm(_) => 400,
            UploadReply::NoFile => 400,
        }
    }

    /// The text that the reply carries.
    pub fn message(&self) -> (text: String)
        ensures
            text@ == self.text(),
    {
        match self {
            UploadReply::Stored(url) => url.clone(),
            UploadReply::TypeNotAllowed(extension) => {
                let mut text = String::from_str("File type .");
                text.append(extension.as_str());
                text.append(" not allowed");
                text
            },
            UploadReply::TooLarge => String::from_str("File too large (Max 10MB)"),
            UploadReply::NoUploadsDir => String::from_str(
                "Server configuration error (Uploads dir)",
            ),
            UploadReply::SaveFailed(reason) => {
                let mut text = String::from_str("Failed to save file: ");
                text.append(reason.as_str());
                text
            },
            UploadReply::BadForm(reason) => {
                let mut text = String::from_str("Multipart structure error: ");
                text.append(reason.as_str());
                text
            },
            UploadReply::NoFile => String::from_str(
                "File upload failed: No 'file' field found in request",
            ),
        }
    }
}

/// What to do with one field of the form.
#[derive(Debug, Clone, PartialEq, Eq)]
pub enum FieldDecision {
    /// It is not the file, or it names no file: go on to the next field.
    Skip,
    /// End the request with this reply.
    Reject(UploadReply),
    /// Read the field's bytes; the file has this extension.
    Read(String),
}

/// Whether a field of the form is the one that carries the file and
/// names a file.
pub open spec fn is_file_part(field: Option<Seq<char>>, file_name: Option<Seq<char>>) -> bool {
    field == Some(FILE_FIELD@) && file_name is Some
}

/// The extension by which a file is judged: the one found in its name,
/// or none, in lower case.
pub open spec fn judged_extension(found: Option<Seq<char>>) -> Seq<char> {
    lowercase(
        match found {
            Some(extension) => extension,
            None => Seq::empty(),
        },
    )
}

/// Whether `decision` is what is decided about a field of the form with
/// this name and this file name when `found` is the extension found in
/// the file name: a field that is not the file field or that names no
/// file is passed over, a file whose extension in lower case is not
/// among those taken is refused, any other is read.
pub open spec fn decides(
    decision: FieldDecision,
    field: Option<Seq<char>>,
    file_name: Option<Seq<char>>,
    found: Option<Seq<char>>,
) -> bool {
    if !is_file_part(field, file_name) {
        decision == FieldDecision::Skip
    } else if is_allowed(judged_extension(found)) {
        decision matches FieldDecision::Read(extension) && extension@ == judged_extension(found)
    } else {
        decision matches FieldDecision::Reject(UploadReply::TypeNotAllowed(extension))
            && extension@ == judged_extension(found)
    }
}

/// Decides about a field of the form from its name, the file name that
/// it carries, and the extension found in that file name.
pub fn decide_field(
    field: Option<&str>,
    file_name: Option<&str>,
    found_extension: Option<&str>,
) -> (decision: FieldDecision)
    ensures
        decides(decision, opt_str(field), opt_str(file_name), opt_str(found_extension)),
{
    let is_file = match field {
        Some(name) => same_text(name, FILE_FIELD),
        None => false,
    };
    if !is_file || file_name.is_none() {
        return FieldDecision::Skip;
    }
    let extension = match found_extension {
        Some(e) => e.to_lowercase(),
        None => {
            proof {
                reveal_strlit("");
                assert(""@ =~= Seq::<char>::empty());
            }
            "".to_lowercase()
        },
    };
    if extension_allowed(extension.as_str()) {
        FieldDecision::Read(extension)
    } else {
        FieldDecision::Reject(UploadReply::TypeNotAllowed(extension))
    }
}

/// Decides about a field of the form from its name and the file name
/// that it carries: the extension is looked for in the file name, and
/// the field is judged by it. For a plain name that is what follows its
/// last dot; for a name that holds a separator it is what the platform
/// finds. A field that names no file is passed over. A field without a
/// name is taken for one that is not the file.
pub fn screen_field(field: Option<&str>, file_name: Option<&str>) -> (decision: FieldDecision)
    ensures
        file_name is None ==> decision == FieldDecision::Skip,
        file_name matches Some(name) ==> exists|found: Option<Seq<char>>|
            findable(name@, found) && #[trigger] decides(
                decision,
                opt_str(field),
                Some(name@),
                found,
            ),
        file_name is Some && is_plain_name(file_name->0@) ==> decides(
            decision,
            opt_str(field),
            Some(file_name->0@),
            plain_extension(file_name->0@),
        ),
{
    match file_name {
        Some(name) => {
            let found = path_extension(name);
            let decision = match &found {
                Some(extension) => decide_field(field, file_name, Some(extension.as_str())),
                None => decide_field(field, file_name, None),
            };
            proof {
                assert(decides(decision, opt_str(field), Some(name@), opt_text(found)));
            }
            decision
        },
        None => FieldDecision::Skip,
    }
}

/// Whether a file of `size` bytes is taken: one of more than ten
/// mebibytes is refused.
pub fn screen_size(size: usize) -> (taken: Result<(), UploadReply>)
    ensures
        taken == (if size <= MAX_FILE_SIZE {
            Ok::<(), UploadReply>(())
        } else {
            Err::<(), UploadReply>(UploadReply::TooLarge)
        }),
{
    if size > MAX_FILE_SIZE {
        Err(UploadReply::TooLarge)
    } else {
        Ok(())
    }
}

/// Where an upload is kept and how it is fetched.
#[derive(Debug, Clone, PartialEq, Eq)]
pub struct StoredFile {
    /// The name of the file: a fresh identifier and the extension, so
    /// that nothing of the name that the client gave reaches the disk.
    pub name: String,
    /// Where the file is written.
    pub path: String,
    /// Under which address it is fetched.
    pub url: String,
}

/// The name under which the upload with identifier `id` is kept.
pub open spec fn stored_name(id: u128, extension: Seq<char>) -> Seq<char> {
    id_text(id) + "."@ + extension
}

/// Where the upload with the fresh identifier `id` is kept and how it is fetched.
pub fn stored_file(id: u128, extension: &str) -> (file: StoredFile)
    ensures
        file.name@ == stored_name(id, extension@),
        file.path@ == UPLOADS_DIR@ + "/"@ + stored_name(id, extension@),
        file.url@ == "/"@ + UPLOADS_DIR@ + "/"@ + stored_name(id, extension@),
{
    let mut name = hyphenated(id);
    name.append(".");
    name.append(extension);
    let mut path = String::from_str(UPLOADS_DIR);
    path.append("/");
    path.append(name.as_str());
    let mut url = String::from_str("/");
    url.append(UPLOADS_DIR);
    url.append("/");
    url.append(name.as_str());
    proof {
        assert(path@ =~= UPLOADS_DIR@ + "/"@ + stored_name(id, extension@));
        assert(url@ =~= "/"@ + UPLOADS_DIR@ + "/"@ + stored_name(id, extension@));
    }
    StoredFile { name, path, url }
}

} // verus!
