//! The editor config of OnlyOffice Document Server, signed with the shared
//! secret, and the server's callbacks. The browser loads the config into
//! `DocsAPI.DocEditor(elementId, config)`.

use crate::json::JsonValue;
use crate::jwt;
use crate::text::{ends_with_text, lower_of};
use vstd::prelude::*;

verus! {

#[derive(Debug, Clone, Copy, PartialEq, Eq, Structural)]
pub enum FileKind {
    Docx,
    Xlsx,
    Pptx,
    Other,
}

/// Whether a path ends in an extension, whatever the case of its letters.
pub open spec fn has_extension(path: Seq<char>, extension: Seq<char>) -> bool {
    extension.is_suffix_of(path.map_values(|c: char| crate::text::lower_char(c)))
}

/// The kind of the file at a path.
pub open spec fn kind_of(path: Seq<char>) -> FileKind {
    if has_extension(path, ".docx"@) || has_extension(path, ".doc"@) {
        FileKind::Docx
    } else if has_extension(path, ".xlsx"@) || has_extension(path, ".xls"@) {
        FileKind::Xlsx
    } else if has_extension(path, ".pptx"@) || has_extension(path, ".ppt"@) {
        FileKind::Pptx
    } else {
        FileKind::Other
    }
}

/// What OnlyOffice calls the editor for a kind of file.
pub open spec fn editor_of(kind: FileKind) -> Seq<char> {
    match kind {
        FileKind::Docx => "word"@,
        FileKind::Xlsx => "cell"@,
        FileKind::Pptx => "slide"@,
        FileKind::Other => "word"@,
    }
}

/// What OnlyOffice is told of the format of a kind of file.
pub open spec fn format_of(kind: FileKind) -> Seq<char> {
    match kind {
        FileKind::Docx => "docx"@,
        FileKind::Xlsx => "xlsx"@,
        FileKind::Pptx => "pptx"@,
        FileKind::Other => "txt"@,
    }
}

impl FileKind {
    pub fn from_path(path: &str) -> (kind: FileKind)
        ensures
            kind == kind_of(path@),
    {
        let lower = lower_of(path);
        if ends_with_text(lower.as_str(), ".docx") || ends_with_text(lower.as_str(), ".doc") {
            FileKind::Docx
        } else if ends_with_text(lower.as_str(), ".xlsx") || ends_with_text(
            lower.as_str(),
            ".xls",
        ) {
            FileKind::Xlsx
        } else if ends_with_text(lower.as_str(), ".pptx") || ends_with_text(
            lower.as_str(),
            ".ppt",
        ) {
            FileKind::Pptx
        } else {
            FileKind::Other
        }
    }

    pub fn document_type(self) -> (s: &'static str)
        ensures
            s@ == editor_of(self),
    {
        match self {
            FileKind::Docx => "word",
            FileKind::Xlsx => "cell",
            FileKind::Pptx => "slide",
            FileKind::Other => "word",
        }
    }

    pub fn extension(self) -> (s: &'static str)
        ensures
            s@ == format_of(self),
    {
        match self {
            FileKind::Docx => "docx",
            FileKind::Xlsx => "xlsx",
            FileKind::Pptx => "pptx",
            FileKind::Other => "txt",
        }
    }
}

#[derive(Debug, Clone)]
pub struct EditorConfig {
    pub document: Document,
    pub document_type: &'static str,
    pub editor_config: InnerEditorConfig,
    pub width: &'static str,
    pub height: &'static str,
    pub token: String,
}

#[derive(Debug, Clone)]
pub struct Document {
    pub file_type: &'static str,
    pub key: String,
    pub title: String,
    pub url: String,
    pub permissions: Permissions,
}

#[derive(Debug, Clone)]
pub struct Permissions {
    pub edit: bool,
    pub download: bool,
    pub print: bool,
}

#[derive(Debug, Clone)]
pub struct InnerEditorConfig {
    pub mode: &'static str,
    pub callback_url: String,
    pub user: UserInfo,
    pub lang: &'static str,
}

#[derive(Debug, Clone)]
pub struct UserInfo {
    pub id: String,
    pub name: String,
}

/// A document as a JSON value.
pub open spec fn document_json(d: Document) -> crate::json::Json {
    crate::json::Json::Object(
        seq![
            ("fileType"@, crate::json::Json::Text(d.file_type@)),
            ("key"@, crate::json::Json::Text(d.key@)),
            ("title"@, crate::json::Json::Text(d.title@)),
            ("url"@, crate::json::Json::Text(d.url@)),
            (
                "permissions"@,
                crate::json::Json::Object(
                    seq![
                        ("edit"@, crate::json::Json::Bool(d.permissions.edit)),
                        ("download"@, crate::json::Json::Bool(d.permissions.download)),
                        ("print"@, crate::json::Json::Bool(d.permissions.print)),
                    ],
                ),
            ),
        ],
    )
}

/// The settings of the editor as a JSON value.
pub open spec fn inner_json(e: InnerEditorConfig) -> crate::json::Json {
    crate::json::Json::Object(
        seq![
            ("mode"@, crate::json::Json::Text(e.mode@)),
            ("callbackUrl"@, crate::json::Json::Text(e.callback_url@)),
            (
                "user"@,
                crate::json::Json::Object(
                    seq![
                        ("id"@, crate::json::Json::Text(e.user.id@)),
                        ("name"@, crate::json::Json::Text(e.user.name@)),
                    ],
                ),
            ),
            ("lang"@, crate::json::Json::Text(e.lang@)),
        ],
    )
}

/// The part of a config that its token signs.
pub open spec fn unsigned_json(c: EditorConfig) -> crate::json::Json {
    crate::json::Json::Object(
        seq![
            ("document"@, document_json(c.document)),
            ("documentType"@, crate::json::Json::Text(c.document_type@)),
            ("editorConfig"@, inner_json(c.editor_config)),
        ],
    )
}

/// A whole config as a JSON value.
pub open spec fn config_json(c: EditorConfig) -> crate::json::Json {
    crate::json::Json::Object(
        seq![
            ("document"@, document_json(c.document)),
            ("documentType"@, crate::json::Json::Text(c.document_type@)),
            ("editorConfig"@, inner_json(c.editor_config)),
            ("width"@, crate::json::Json::Text(c.width@)),
            ("height"@, crate::json::Json::Text(c.height@)),
            ("token"@, crate::json::Json::Text(c.token@)),
        ],
    )
}

impl Document {
    fn to_json(&self) -> (v: JsonValue)
        ensures
            v@ == document_json(*self),
    {
        let permissions: Vec<(String, JsonValue)> = vec![
            ("edit".to_owned(), JsonValue::boolean(self.permissions.edit)),
            ("download".to_owned(), JsonValue::boolean(self.permissions.download)),
            ("print".to_owned(), JsonValue::boolean(self.permissions.print)),
        ];
        let ghost inner = document_json(*self)->Object_0[4].1;
        proof {
            assert(crate::json::member_values(permissions@) =~= inner->Object_0);
        }
        let members: Vec<(String, JsonValue)> = vec![
            ("fileType".to_owned(), JsonValue::text(self.file_type)),
            ("key".to_owned(), JsonValue::text(self.key.as_str())),
            ("title".to_owned(), JsonValue::text(self.title.as_str())),
            ("url".to_owned(), JsonValue::text(self.url.as_str())),
            ("permissions".to_owned(), JsonValue::object(permissions)),
        ];
        proof {
            assert(crate::json::member_values(members@) =~= document_json(*self)->Object_0);
        }
        JsonValue::object(members)
    }
}

impl InnerEditorConfig {
    fn to_json(&self) -> (v: JsonValue)
        ensures
            v@ == inner_json(*self),
    {
        let user: Vec<(String, JsonValue)> = vec![
            ("id".to_owned(), JsonValue::text(self.user.id.as_str())),
            ("name".to_owned(), JsonValue::text(self.user.name.as_str())),
        ];
        let ghost inner = inner_json(*self)->Object_0[2].1;
        proof {
            assert(crate::json::member_values(user@) =~= inner->Object_0);
        }
        let members: Vec<(String, JsonValue)> = vec![
            ("mode".to_owned(), JsonValue::text(self.mode)),
            ("callbackUrl".to_owned(), JsonValue::text(self.callback_url.as_str())),
            ("user".to_owned(), JsonValue::object(user)),
            ("lang".to_owned(), JsonValue::text(self.lang)),
        ];
        proof {
            assert(crate::json::member_values(members@) =~= inner_json(*self)->Object_0);
        }
        JsonValue::object(members)
    }
}

impl EditorConfig {
    fn unsigned_members(&self) -> (members: Vec<(String, JsonValue)>)
        ensures
            crate::json::member_values(members@) == unsigned_json(*self)->Object_0,
    {
        let members: Vec<(String, JsonValue)> = vec![
            ("document".to_owned(), self.document.to_json()),
            ("documentType".to_owned(), JsonValue::text(self.document_type)),
            ("editorConfig".to_owned(), self.editor_config.to_json()),
        ];
        proof {
            assert(crate::json::member_values(members@) =~= unsigned_json(*self)->Object_0);
        }
        members
    }

    /// The config as JSON, for the editor page.
    pub fn to_json(&self) -> (v: JsonValue)
        ensures
            v@ == config_json(*self),
    {
        let mut members = self.unsigned_members();
        let ghost head = members@;
        members.push(("width".to_owned(), JsonValue::text(self.width)));
        members.push(("height".to_owned(), JsonValue::text(self.height)));
        members.push(("token".to_owned(), JsonValue::text(self.token.as_str())));
        proof {
            let all = crate::json::member_values(members@);
            assert(crate::json::member_values(head).len() == 3);
            assert forall|i: int| 0 <= i < 3 implies all[i] == crate::json::member_values(
                head,
            )[i] by {}
            assert(all =~= config_json(*self)->Object_0);
        }
        JsonValue::object(members)
    }
}

/// The config of the editor for one file, but for its token.
pub open spec fn is_config_for(
    c: EditorConfig,
    title: Seq<char>,
    file_kind: FileKind,
    document_key: Seq<char>,
    file_url: Seq<char>,
    callback_url: Seq<char>,
    user_id: Seq<char>,
    user_name: Seq<char>,
) -> bool {
    &&& c.document.file_type@ == format_of(file_kind)
    &&& c.document.key@ == document_key
    &&& c.document.title@ == title
    &&& c.document.url@ == file_url
    &&& c.document.permissions == Permissions { edit: true, download: true, print: true }
    &&& c.document_type@ == editor_of(file_kind)
    &&& c.editor_config.mode@ == "edit"@
    &&& c.editor_config.callback_url@ == callback_url
    &&& c.editor_config.user.id@ == user_id
    &&& c.editor_config.user.name@ == user_name
    &&& c.editor_config.lang@ == "en"@
    &&& c.width@ == "100%"@
    &&& c.height@ == "100%"@
}

/// Whether the token of a config signs the config.
pub open spec fn is_signed(c: EditorConfig, oo_jwt_secret: Seq<u8>) -> bool {
    c.token@ == jwt::signed_token(crate::json::json_text(unsigned_json(c)), oo_jwt_secret)
}

/// Builds the config of the editor for one file and signs it: the document,
/// its type and the settings of the editor are signed as one object, and the
/// token is put beside them.
pub fn build_and_sign(
    title: &str,
    file_kind: FileKind,
    document_key: &str,
    file_url: &str,
    callback_url: &str,
    user_id: &str,
    user_name: &str,
    oo_jwt_secret: &[u8],
) -> (r: Result<EditorConfig, String>)
    ensures
        r is Ok,
        is_config_for(
            r->Ok_0,
            title@,
            file_kind,
            document_key@,
            file_url@,
            callback_url@,
            user_id@,
            user_name@,
        ),
        is_signed(r->Ok_0, oo_jwt_secret@),
{
    let document = Document {
        file_type: file_kind.extension(),
        key: document_key.to_owned(),
        title: title.to_owned(),
        url: file_url.to_owned(),
        permissions: Permissions { edit: true, download: true, print: true },
    };
    let editor_config = InnerEditorConfig {
        mode: "edit",
        callback_url: callback_url.to_owned(),
        user: UserInfo { id: user_id.to_owned(), name: user_name.to_owned() },
        lang: "en",
    };
    let mut config = EditorConfig {
        document,
        document_type: file_kind.document_type(),
        editor_config,
        width: "100%",
        height: "100%",
        token: String::new(),
    };
    let unsigned = JsonValue::object(config.unsigned_members());
    match jwt::sign(&unsigned, oo_jwt_secret) {
        Ok(token) => {
            config.token = token;
            Ok(config)
        },
        Err(e) => Err(e),
    }
}

/// Status codes of OnlyOffice's callback API.
/// https://api.onlyoffice.com/editors/callback
#[derive(Debug, Clone, Copy, PartialEq, Eq, Structural)]
pub enum CallbackStatus {
    /// 0: no document with the key id can be found (never expected).
    NotFound,
    /// 1: the document is being edited.
    Editing,
    /// 2: the document is ready to be saved (fetched from `url` and kept).
    ReadyToSave,
    /// 3: error saving (must not be saved).
    SaveError,
    /// 4: the document is closed with no changes.
    ClosedNoChanges,
    /// 6: the document is being edited, but the current state is saved.
    Forcesave,
    /// 7: error forcesaving.
    ForcesaveError,
    Other(i64),
}

/// The status of a code.
pub open spec fn status_of(n: i64) -> CallbackStatus {
    if n == 0 {
        CallbackStatus::NotFound
    } else if n == 1 {
        CallbackStatus::Editing
    } else if n == 2 {
        CallbackStatus::ReadyToSave
    } else if n == 3 {
        CallbackStatus::SaveError
    } else if n == 4 {
        CallbackStatus::ClosedNoChanges
    } else if n == 6 {
        CallbackStatus::Forcesave
    } else if n == 7 {
        CallbackStatus::ForcesaveError
    } else {
        CallbackStatus::Other(n)
    }
}

impl From<i64> for CallbackStatus {
    fn from(n: i64) -> (status: CallbackStatus) {
        match n {
            0 => CallbackStatus::NotFound,
            1 => CallbackStatus::Editing,
            2 => CallbackStatus::ReadyToSave,
            3 => CallbackStatus::SaveError,
            4 => CallbackStatus::ClosedNoChanges,
            6 => CallbackStatus::Forcesave,
            7 => CallbackStatus::ForcesaveError,
            x => CallbackStatus::Other(x),
        }
    }
}

impl vstd::std_specs::convert::FromSpecImpl<i64> for CallbackStatus {
    open spec fn obeys_from_spec() -> bool {
        true
    }

    open spec fn from_spec(n: i64) -> CallbackStatus {
        status_of(n)
    }
}

/// What OnlyOffice reports of a document.
#[derive(Debug, Clone)]
pub struct Callback {
    pub status: i64,
    /// Where the document can be fetched, when it is ready.
    pub url: Option<String>,
    pub key: Option<String>,
}

impl Callback {
    pub fn status_enum(&self) -> (status: CallbackStatus)
        ensures
            status == status_of(self.status),
    {
        CallbackStatus::from(self.status)
    }
}

} // verus!
