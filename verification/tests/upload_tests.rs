use oisko::upload::{
    decide_field, extension_allowed, screen_field, screen_size, stored_file, FieldDecision,
    StoredFile, UploadReply, FILE_FIELD, MAX_FILE_SIZE, UPLOADS_DIR,
};

#[test]
fn limits_and_names() {
    assert_eq!(MAX_FILE_SIZE, 10_485_760);
    assert_eq!(FILE_FIELD, "file");
    assert_eq!(UPLOADS_DIR, "uploads");
}

#[test]
fn allowed_extensions() {
    for ok in ["pdf", "docx", "png", "jpg", "jpeg", "webp"] {
        assert!(extension_allowed(ok));
    }
    for no in ["", "PDF", "exe", "doc", "pdf ", ".pdf", "svg"] {
        assert!(!extension_allowed(no));
    }
}

#[test]
fn other_fields_are_skipped() {
    assert_eq!(screen_field(Some("note"), Some("cv.pdf")), FieldDecision::Skip);
    assert_eq!(screen_field(None, Some("cv.pdf")), FieldDecision::Skip);
    assert_eq!(screen_field(Some("file"), None), FieldDecision::Skip);
    assert_eq!(screen_field(Some("File"), Some("cv.pdf")), FieldDecision::Skip);
}

#[test]
fn files_are_judged_by_their_extension_in_lower_case() {
    assert_eq!(
        screen_field(Some("file"), Some("cv.pdf")),
        FieldDecision::Read("pdf".to_string())
    );
    assert_eq!(
        screen_field(Some("file"), Some("My Photo.JPEG")),
        FieldDecision::Read("jpeg".to_string())
    );
    assert_eq!(
        screen_field(Some("file"), Some("archive.tar.WebP")),
        FieldDecision::Read("webp".to_string())
    );
    assert_eq!(
        screen_field(Some("file"), Some("run.EXE")),
        FieldDecision::Reject(UploadReply::TypeNotAllowed("exe".to_string()))
    );
    assert_eq!(
        screen_field(Some("file"), Some("README")),
        FieldDecision::Reject(UploadReply::TypeNotAllowed(String::new()))
    );
    assert_eq!(
        screen_field(Some("file"), Some(".pdf")),
        FieldDecision::Reject(UploadReply::TypeNotAllowed(String::new()))
    );
}

#[test]
fn decide_field_from_a_found_extension() {
    assert_eq!(
        decide_field(Some("file"), Some("x"), Some("PNG")),
        FieldDecision::Read("png".to_string())
    );
    assert_eq!(
        decide_field(Some("file"), Some("x"), None),
        FieldDecision::Reject(UploadReply::TypeNotAllowed(String::new()))
    );
    assert_eq!(decide_field(Some("other"), Some("x"), Some("png")), FieldDecision::Skip);
    assert_eq!(decide_field(Some("file"), None, Some("png")), FieldDecision::Skip);
}

#[test]
fn size_limit_is_inclusive() {
    assert_eq!(screen_size(0), Ok(()));
    assert_eq!(screen_size(MAX_FILE_SIZE), Ok(()));
    assert_eq!(screen_size(MAX_FILE_SIZE + 1), Err(UploadReply::TooLarge));
}

#[test]
fn stored_file_carries_nothing_of_the_given_name() {
    assert_eq!(
        stored_file(0xa1a2a3a4b1b2c1c2d1d2d3d4d5d6d7d8, "pdf"),
        StoredFile {
            name: "a1a2a3a4-b1b2-c1c2-d1d2-d3d4d5d6d7d8.pdf".to_string(),
            path: "uploads/a1a2a3a4-b1b2-c1c2-d1d2-d3d4d5d6d7d8.pdf".to_string(),
            url: "/uploads/a1a2a3a4-b1b2-c1c2-d1d2-d3d4d5d6d7d8.pdf".to_string(),
        }
    );
}

#[test]
fn upload_replies_have_their_codes_and_texts() {
    let all = [
        (UploadReply::Stored("/uploads/x.pdf".to_string()), 200, "/uploads/x.pdf"),
        (UploadReply::TypeNotAllowed("exe".to_string()), 400, "File type .exe not allowed"),
        (UploadReply::TooLarge, 413, "File too large (Max 10MB)"),
        (UploadReply::NoUploadsDir, 500, "Server configuration error (Uploads dir)"),
        (UploadReply::SaveFailed("disk full".to_string()), 500, "Failed to save file: disk full"),
        (UploadReply::BadForm("eof".to_string()), 400, "Multipart structure error: eof"),
        (UploadReply::NoFile, 400, "File upload failed: No 'file' field found in request"),
    ];
    for (reply, code, text) in all {
        assert_eq!(reply.status_code(), code);
        assert_eq!(reply.message(), text);
    }
}

#[test]
fn plain_names_are_judged_by_what_follows_the_last_dot() {
    let read = |name: &str, extension: &str| {
        assert_eq!(
            screen_field(Some("file"), Some(name)),
            FieldDecision::Read(extension.to_string()),
            "for {:?}",
            name
        );
    };
    let refuse = |name: &str, extension: &str| {
        assert_eq!(
            screen_field(Some("file"), Some(name)),
            FieldDecision::Reject(UploadReply::TypeNotAllowed(extension.to_string())),
            "for {:?}",
            name
        );
    };
    read("CV.PDF", "pdf");
    read("..png", "png");
    read(".hidden.Docx", "docx");
    read("a.b.c.jpg", "jpg");
    read("my cv (final).webp", "webp");
    refuse("archive.tar.gz", "gz");
    refuse("", "");
    refuse("pdf", "");
    refuse(".pdf", "");
    refuse("a.", "");
    refuse("...", "");
    refuse("a.pdf ", "pdf ");
    refuse("a.p df", "p df");
}
