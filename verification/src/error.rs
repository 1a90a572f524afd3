//! Errors of evaluation, resolution and compilation.

use vstd::prelude::*;

verus! {

#[verifier::external_type_specification]
#[verifier::external_body]
pub struct ExIoError(std::io::Error);

/// The text of an I/O error (`std::io::Error`'s `Display` output).
/// Nothing is stated of it: the text comes from the operating system for
/// OS errors.
#[verifier::external_body]
fn io_error_text(e: &std::io::Error) -> String {
    e.to_string()
}

/// An error of the engine.
#[derive(Debug)]
pub enum EngineError {
    UnknownDevice(String),
    UnknownInstrument(String),
    UnknownKit(String),
    UnknownClip(String),
    UnknownScene(String),
    UnknownSession(String),
    Config(String),
    ParseError(String),
    Io(std::io::Error),
    /// Circular include detected.
    CircularInclude(String),
    /// Include file not found.
    IncludeNotFound(String),
    /// Include file could not be read.
    IncludeReadError { path: String, reason: String },
    /// An include that does not stand at the top of its file.
    IncludeNotAtTop(String),
    /// Reference to an undefined variable.
    UndefinedVariable { name: String, field: String },
    /// Compile error.
    CompileError(String),
    /// A variable's value could not be converted to the expected type.
    InvalidVariableValue { name: String, value: String, expected_type: String },
}

/// `prefix` followed by `text`.
fn join2(prefix: &str, text: &str) -> (r: String)
    ensures
        r@ == prefix@ + text@,
{
    let mut s = String::from_str(prefix);
    s.append(text);
    s
}

impl EngineError {
    /// The human-readable message of the error.
    pub fn to_string(&self) -> (r: String)
        ensures
            match self {
                EngineError::UnknownDevice(s) => r@ == "不明なデバイス: "@ + s@,
                EngineError::UnknownInstrument(s) => r@ == "不明なインストゥルメント: "@ + s@,
                EngineError::UnknownKit(s) => r@ == "不明なキット: "@ + s@,
                EngineError::UnknownClip(s) => r@ == "不明なクリップ: "@ + s@,
                EngineError::UnknownScene(s) => r@ == "不明なシーン: "@ + s@,
                EngineError::UnknownSession(s) => r@ == "不明なセッション: "@ + s@,
                EngineError::Config(s) => r@ == "設定エラー: "@ + s@,
                EngineError::ParseError(s) => r@ == "パースエラー: "@ + s@,
                EngineError::Io(_) => r@.len() >= "IOエラー: "@.len()
                    && r@.subrange(0, "IOエラー: "@.len() as int) == "IOエラー: "@,
                EngineError::CircularInclude(s) => r@ == "循環インクルード: "@ + s@,
                EngineError::IncludeNotFound(s) => r@ == "インクルードファイル未検出: "@ + s@,
                EngineError::IncludeReadError { path, reason } => r@
                    == "インクルードファイル読み込みエラー: "@ + path@ + ": "@ + reason@,
                EngineError::IncludeNotAtTop(s) => r@
                    == "includeはファイル先頭に記述してください: "@ + s@,
                EngineError::UndefinedVariable { name, field } => r@ == "未定義変数: "@ + name@
                    + " (フィールド: "@ + field@ + ")"@,
                EngineError::CompileError(s) => r@ == "コンパイルエラー: "@ + s@,
                EngineError::InvalidVariableValue { name, value, expected_type } => r@
                    == "変数値の型変換失敗: "@ + name@ + " = \""@ + value@ + "\" ("@
                    + expected_type@ + "に変換できません)"@,
            },
    {
        match self {
            EngineError::UnknownDevice(s) => join2("不明なデバイス: ", s.as_str()),
            EngineError::UnknownInstrument(s) => join2("不明なインストゥルメント: ", s.as_str()),
            EngineError::UnknownKit(s) => join2("不明なキット: ", s.as_str()),
            EngineError::UnknownClip(s) => join2("不明なクリップ: ", s.as_str()),
            EngineError::UnknownScene(s) => join2("不明なシーン: ", s.as_str()),
            EngineError::UnknownSession(s) => join2("不明なセッション: ", s.as_str()),
            EngineError::Config(s) => join2("設定エラー: ", s.as_str()),
            EngineError::ParseError(s) => join2("パースエラー: ", s.as_str()),
            EngineError::Io(e) => {
                let t = io_error_text(e);
                let r = join2("IOエラー: ", t.as_str());
                assert(r@.subrange(0, "IOエラー: "@.len() as int) =~= "IOエラー: "@);
                r
            },
            EngineError::CircularInclude(s) => join2("循環インクルード: ", s.as_str()),
            EngineError::IncludeNotFound(s) => join2("インクルードファイル未検出: ", s.as_str()),
            EngineError::IncludeReadError { path, reason } => {
                let mut r = join2("インクルードファイル読み込みエラー: ", path.as_str());
                r.append(": ");
                r.append(reason.as_str());
                r
            },
            EngineError::IncludeNotAtTop(s) => join2(
                "includeはファイル先頭に記述してください: ",
                s.as_str(),
            ),
            EngineError::UndefinedVariable { name, field } => {
                let mut r = join2("未定義変数: ", name.as_str());
                r.append(" (フィールド: ");
                r.append(field.as_str());
                r.append(")");
                r
            },
            EngineError::CompileError(s) => join2("コンパイルエラー: ", s.as_str()),
            EngineError::InvalidVariableValue { name, value, expected_type } => {
                let mut r = join2("変数値の型変換失敗: ", name.as_str());
                r.append(" = \"");
                r.append(value.as_str());
                r.append("\" (");
                r.append(expected_type.as_str());
                r.append("に変換できません)");
                r
            },
        }
    }
}

impl From<std::io::Error> for EngineError {
    fn from(e: std::io::Error) -> (r: EngineError) {
        EngineError::Io(e)
    }
}

impl vstd::std_specs::convert::FromSpecImpl<std::io::Error> for EngineError {
    open spec fn obeys_from_spec() -> bool {
        true
    }

    open spec fn from_spec(v: std::io::Error) -> EngineError {
        EngineError::Io(v)
    }
}

} // verus!
