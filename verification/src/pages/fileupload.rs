//! The file-upload page: which posted upload is taken.
use vstd::prelude::*;
use crate::flexuuid::FlexUuid;

verus! {

/// The key of the upload page: it has no parameters.
#[derive(Debug, Clone, Copy, PartialEq, Eq, Structural, Default)]
pub struct PageKey {}

/// The state of the upload page: it keeps none.
#[derive(Debug, Clone, Copy, PartialEq, Eq, Structural, Default)]
pub struct PageState {}

impl PageState {
    /// The state for a request: always the empty one.
    pub fn get_state(key: PageKey) -> (s: PageState)
        ensures
            s == (PageState {}),
    {
        PageState {}
    }
}

/// A file posted in the `item_file_upload` field.
pub struct PostedFile {
    /// The name the browser gave, if any.
    pub filename: Option<String>,
    /// Where the server saved it, where the path is valid text.
    pub path: Option<String>,
    /// Its size in bytes.
    pub size: u64,
}

/// An upload to record.
pub struct UploadRequest {
    /// The record it belongs to.
    pub upload_for_uuid: FlexUuid,
    /// Where the server saved the file (`x` where the path is not text).
    pub real_fname: String,
    /// The browser's name for it (`unknown` where none was given).
    pub orig_fname: String,
    /// The comments posted with it.
    pub upload_comments: String,
}

/// What the upload page does with a post: where all three fields came, exactly
/// one file was posted, the record identifier parses and the file is not
/// empty, it records that file for that record; otherwise nothing.
pub open spec fn upload_request_spec(
    files: Option<Seq<PostedFile>>,
    upload_for: Option<Seq<char>>,
    upload_comments: Option<Seq<char>>,
    r: Option<UploadRequest>,
) -> bool {
    match (files, upload_for, upload_comments) {
        (Some(fs), Some(uf), Some(c)) => {
            if fs.len() == 1 && FlexUuid::parse_spec(uf) is Some && fs[0].size > 0 {
                r matches Some(q) && q.upload_for_uuid == FlexUuid::parse_spec(uf)->0
                    && q.upload_comments@ == c && q.orig_fname@ == match fs[0].filename {
                    Some(n) => n@,
                    None => "unknown"@,
                } && q.real_fname@ == match fs[0].path {
                    Some(p) => p@,
                    None => "x"@,
                }
            } else {
                r is None
            }
        },
        _ => r is None,
    }
}

/// The upload that a post to the page asks to record, if any.
pub fn upload_request(
    files: Option<&Vec<PostedFile>>,
    upload_for: Option<&str>,
    upload_comments: Option<&str>,
) -> (r: Option<UploadRequest>)
    ensures
        upload_request_spec(
            match files {
                Some(f) => Some(f@),
                None => None,
            },
            match upload_for {
                Some(u) => Some(u@),
                None => None,
            },
            match upload_comments {
                Some(c) => Some(c@),
                None => None,
            },
            r,
        ),
{
    match (files, upload_for, upload_comments) {
        (Some(files), Some(upload_for), Some(upload_comments)) => {
            let upload_for_uuid = FlexUuid::from_str(upload_for);
            if files.len() == 1 && upload_for_uuid.is_some() {
                let file = &files[0];
                if file.size > 0 {
                    let orig_fname = match &file.filename {
                        Some(n) => n.clone(),
                        None => String::from_str("unknown"),
                    };
                    let real_fname = match &file.path {
                        Some(p) => p.clone(),
                        None => String::from_str("x"),
                    };
                    return Some(
                        UploadRequest {
                            upload_for_uuid: upload_for_uuid.unwrap(),
                            real_fname,
                            orig_fname,
                            upload_comments: String::from_str(upload_comments),
                        },
                    );
                }
            }
            None
        },
        _ => None,
    }
}

} // verus!
