//! Error types of the wiki pipeline and the messages they print.
use vstd::prelude::*;
use vstd::string::*;
use crate::proxy::request_log::concat2;
use crate::text::u64_to_decimal;

verus! {

/// Errors reading a wiki dump.
#[derive(Debug)]
pub enum WikiParseError {
    XmlError(String),
    EncodingError(String),
    MissingField { field: String, context: String },
    InvalidRedirect(String),
    CircularRedirect(String),
    /// An I/O failure, by its message.
    IoError(String),
}

/// Errors splitting articles into chunks.
#[derive(Debug)]
pub enum ChunkingError {
    InvalidChunkSize(usize),
    TokenizationError(String),
    SectionParseError(String),
    BoundaryError(String),
    OverlapTooLarge(u8, u8),
    ArticleTooSmall(usize),
}

/// Errors generating embeddings.
#[derive(Debug)]
pub enum EmbeddingError {
    ModelLoadError(String),
    InferenceError(String),
    InvalidDimension { expected: usize, actual: usize },
    ModelNotFound(String),
    BatchError(String),
}

/// Errors of the vector store.
#[derive(Debug)]
pub enum VectorError {
    ConnectionError(String),
    CollectionNotFound(String),
    CollectionCreationError(String),
    UpsertError(String),
    SearchError(String),
    FilterError(String),
    PointNotFound(String),
}

/// Errors of the tool server.
#[derive(Debug)]
pub enum MCPServerError {
    ToolNotFound(String),
    ToolExecutionError(String),
    InvalidParameters(String),
    TransportError(String),
    NotInitialized,
    ProtocolError(String),
}

/// Errors loading the configuration.
#[derive(Debug)]
pub enum ConfigError {
    FileNotFound(String),
    ParseError(String),
    MissingField(String),
    InvalidValue { field: String, value: String, reason: String },
    DirectoryNotFound(String),
}

/// Any error of the system.
#[derive(Debug)]
pub enum WikiError {
    Parse(WikiParseError),
    Chunking(ChunkingError),
    Embedding(EmbeddingError),
    Vector(VectorError),
    MCP(MCPServerError),
    Config(ConfigError),
    Generic(String),
}

pub open spec fn dec(n: int) -> Seq<char> {
    crate::text::decimal(n as nat)
}

impl WikiParseError {
    pub open spec fn message(&self) -> Seq<char> {
        match self {
            WikiParseError::XmlError(s) => "XML parsing error: "@ + s@,
            WikiParseError::EncodingError(s) => "Invalid encoding: "@ + s@,
            WikiParseError::MissingField { field, context } => "Missing required field: "@
                + field@ + " in "@ + context@,
            WikiParseError::InvalidRedirect(s) => "Invalid redirect target: "@ + s@,
            WikiParseError::CircularRedirect(s) => "Circular redirect detected: "@ + s@,
            WikiParseError::IoError(s) => "IO error while reading dump: "@ + s@,
        }
    }

    /// The error's message.
    pub fn to_string(&self) -> (r: String)
        ensures
            r@ == self.message(),
    {
        match self {
            WikiParseError::XmlError(s) => concat2("XML parsing error: ", s.as_str()),
            WikiParseError::EncodingError(s) => concat2("Invalid encoding: ", s.as_str()),
            WikiParseError::MissingField { field, context } => {
                let a = concat2("Missing required field: ", field.as_str());
                let b = concat2(a.as_str(), " in ");
                concat2(b.as_str(), context.as_str())
            },
            WikiParseError::InvalidRedirect(s) => concat2("Invalid redirect target: ", s.as_str()),
            WikiParseError::CircularRedirect(s) => concat2(
                "Circular redirect detected: ",
                s.as_str(),
            ),
            WikiParseError::IoError(s) => concat2("IO error while reading dump: ", s.as_str()),
        }
    }
}

impl ChunkingError {
    pub open spec fn message(&self) -> Seq<char> {
        match self {
            ChunkingError::InvalidChunkSize(n) => "Invalid chunk size: "@ + dec(*n as int)
                + " (must be > 0)"@,
            ChunkingError::TokenizationError(s) => "Tokenization failed: "@ + s@,
            ChunkingError::SectionParseError(s) => "Section parsing error: "@ + s@,
            ChunkingError::BoundaryError(s) => "Chunk boundary error: "@ + s@,
            ChunkingError::OverlapTooLarge(a, b) => "Overlap too large: "@ + dec(*a as int)
                + "% exceeds maximum "@ + dec(*b as int) + "%"@,
            ChunkingError::ArticleTooSmall(n) => "Article too small for chunking: "@ + dec(
                *n as int,
            ) + " tokens"@,
        }
    }

    /// The error's message.
    pub fn to_string(&self) -> (r: String)
        ensures
            r@ == self.message(),
    {
        match self {
            ChunkingError::InvalidChunkSize(n) => {
                let d = u64_to_decimal(*n as u64);
                let a = concat2("Invalid chunk size: ", d.as_str());
                concat2(a.as_str(), " (must be > 0)")
            },
            ChunkingError::TokenizationError(s) => concat2("Tokenization failed: ", s.as_str()),
            ChunkingError::SectionParseError(s) => concat2("Section parsing error: ", s.as_str()),
            ChunkingError::BoundaryError(s) => concat2("Chunk boundary error: ", s.as_str()),
            ChunkingError::OverlapTooLarge(a, b) => {
                let da = u64_to_decimal(*a as u64);
                let db = u64_to_decimal(*b as u64);
                let x = concat2("Overlap too large: ", da.as_str());
                let y = concat2(x.as_str(), "% exceeds maximum ");
                let z = concat2(y.as_str(), db.as_str());
                concat2(z.as_str(), "%")
            },
            ChunkingError::ArticleTooSmall(n) => {
                let d = u64_to_decimal(*n as u64);
                let a = concat2("Article too small for chunking: ", d.as_str());
                concat2(a.as_str(), " tokens")
            },
        }
    }
}

impl EmbeddingError {
    pub open spec fn message(&self) -> Seq<char> {
        match self {
            EmbeddingError::ModelLoadError(s) => "Model loading failed: "@ + s@,
            EmbeddingError::InferenceError(s) => "Inference failed: "@ + s@,
            EmbeddingError::InvalidDimension { expected, actual } =>
                "Invalid embedding dimension: expected "@ + dec(*expected as int) + ", got "@
                + dec(*actual as int),
            EmbeddingError::ModelNotFound(s) => "Model not found: "@ + s@,
            EmbeddingError::BatchError(s) => "Batch processing failed: "@ + s@,
        }
    }

    /// The error's message.
    pub fn to_string(&self) -> (r: String)
        ensures
            r@ == self.message(),
    {
        match self {
            EmbeddingError::ModelLoadError(s) => concat2("Model loading failed: ", s.as_str()),
            EmbeddingError::InferenceError(s) => concat2("Inference failed: ", s.as_str()),
            EmbeddingError::InvalidDimension { expected, actual } => {
                let de = u64_to_decimal(*expected as u64);
                let da = u64_to_decimal(*actual as u64);
                let x = concat2("Invalid embedding dimension: expected ", de.as_str());
                let y = concat2(x.as_str(), ", got ");
                concat2(y.as_str(), da.as_str())
            },
            EmbeddingError::ModelNotFound(s) => concat2("Model not found: ", s.as_str()),
            EmbeddingError::BatchError(s) => concat2("Batch processing failed: ", s.as_str()),
        }
    }
}

impl VectorError {
    pub open spec fn message(&self) -> Seq<char> {
        match self {
            VectorError::ConnectionError(s) => "Qdrant connection failed: "@ + s@,
            VectorError::CollectionNotFound(s) => "Collection not found: "@ + s@,
            VectorError::CollectionCreationError(s) => "Collection creation failed: "@ + s@,
            VectorError::UpsertError(s) => "Upsert failed: "@ + s@,
            VectorError::SearchError(s) => "Search failed: "@ + s@,
            VectorError::FilterError(s) => "Invalid filter: "@ + s@,
            VectorError::PointNotFound(s) => "Point not found: "@ + s@,
        }
    }

    /// The error's message.
    pub fn to_string(&self) -> (r: String)
        ensures
            r@ == self.message(),
    {
        match self {
            VectorError::ConnectionError(s) => concat2("Qdrant connection failed: ", s.as_str()),
            VectorError::CollectionNotFound(s) => concat2("Collection not found: ", s.as_str()),
            VectorError::CollectionCreationError(s) => concat2(
                "Collection creation failed: ",
                s.as_str(),
            ),
            VectorError::UpsertError(s) => concat2("Upsert failed: ", s.as_str()),
            VectorError::SearchError(s) => concat2("Search failed: ", s.as_str()),
            VectorError::FilterError(s) => concat2("Invalid filter: ", s.as_str()),
            VectorError::PointNotFound(s) => concat2("Point not found: ", s.as_str()),
        }
    }
}

impl MCPServerError {
    pub open spec fn message(&self) -> Seq<char> {
        match self {
            MCPServerError::ToolNotFound(s) => "Tool not found: "@ + s@,
            MCPServerError::ToolExecutionError(s) => "Tool execution failed: "@ + s@,
            MCPServerError::InvalidParameters(s) => "Invalid tool parameters: "@ + s@,
            MCPServerError::TransportError(s) => "Transport error: "@ + s@,
            MCPServerError::NotInitialized => "Server not initialized"@,
            MCPServerError::ProtocolError(s) => "Protocol error: "@ + s@,
        }
    }

    /// The error's message.
    pub fn to_string(&self) -> (r: String)
        ensures
            r@ == self.message(),
    {
        match self {
            MCPServerError::ToolNotFound(s) => concat2("Tool not found: ", s.as_str()),
            MCPServerError::ToolExecutionError(s) => concat2("Tool execution failed: ", s.as_str()),
            MCPServerError::InvalidParameters(s) => concat2("Invalid tool parameters: ", s.as_str()),
            MCPServerError::TransportError(s) => concat2("Transport error: ", s.as_str()),
            MCPServerError::NotInitialized => String::from_str("Server not initialized"),
            MCPServerError::ProtocolError(s) => concat2("Protocol error: ", s.as_str()),
        }
    }
}

impl ConfigError {
    pub open spec fn message(&self) -> Seq<char> {
        match self {
            ConfigError::FileNotFound(s) => "Config file not found: "@ + s@,
            ConfigError::ParseError(s) => "Config parsing failed: "@ + s@,
            ConfigError::MissingField(s) => "Missing required config field: "@ + s@,
            ConfigError::InvalidValue { field, value, reason } => "Invalid config value: "@
                + field@ + " = "@ + value@ + " ("@ + reason@ + ")"@,
            ConfigError::DirectoryNotFound(s) => "Directory not found: "@ + s@,
        }
    }

    /// The error's message.
    pub fn to_string(&self) -> (r: String)
        ensures
            r@ == self.message(),
    {
        match self {
            ConfigError::FileNotFound(s) => concat2("Config file not found: ", s.as_str()),
            ConfigError::ParseError(s) => concat2("Config parsing failed: ", s.as_str()),
            ConfigError::MissingField(s) => concat2("Missing required config field: ", s.as_str()),
            ConfigError::InvalidValue { field, value, reason } => {
                let a = concat2("Invalid config value: ", field.as_str());
                let b = concat2(a.as_str(), " = ");
                let c = concat2(b.as_str(), value.as_str());
                let d = concat2(c.as_str(), " (");
                let e = concat2(d.as_str(), reason.as_str());
                concat2(e.as_str(), ")")
            },
            ConfigError::DirectoryNotFound(s) => concat2("Directory not found: ", s.as_str()),
        }
    }
}

impl WikiError {
    pub open spec fn message(&self) -> Seq<char> {
        match self {
            WikiError::Parse(e) => "Parse error: "@ + e.message(),
            WikiError::Chunking(e) => "Chunking error: "@ + e.message(),
            WikiError::Embedding(e) => "Embedding error: "@ + e.message(),
            WikiError::Vector(e) => "Vector error: "@ + e.message(),
            WikiError::MCP(e) => "MCP server error: "@ + e.message(),
            WikiError::Config(e) => "Config error: "@ + e.message(),
            WikiError::Generic(s) => "Generic error: "@ + s@,
        }
    }

    /// The error's message.
    pub fn to_string(&self) -> (r: String)
        ensures
            r@ == self.message(),
    {
        match self {
            WikiError::Parse(e) => concat2("Parse error: ", e.to_string().as_str()),
            WikiError::Chunking(e) => concat2("Chunking error: ", e.to_string().as_str()),
            WikiError::Embedding(e) => concat2("Embedding error: ", e.to_string().as_str()),
            WikiError::Vector(e) => concat2("Vector error: ", e.to_string().as_str()),
            WikiError::MCP(e) => concat2("MCP server error: ", e.to_string().as_str()),
            WikiError::Config(e) => concat2("Config error: ", e.to_string().as_str()),
            WikiError::Generic(s) => concat2("Generic error: ", s.as_str()),
        }
    }
}

impl From<String> for WikiError {
    fn from(s: String) -> (r: WikiError) {
        WikiError::Generic(s)
    }
}

impl vstd::std_specs::convert::FromSpecImpl<String> for WikiError {
    open spec fn obeys_from_spec() -> bool {
        true
    }

    open spec fn from_spec(s: String) -> WikiError {
        WikiError::Generic(s)
    }
}

impl<'a> From<&'a str> for WikiError {
    fn from(s: &'a str) -> (r: WikiError)
        ensures
            r matches WikiError::Generic(g) && g@ == s@,
    {
        WikiError::Generic(String::from_str(s))
    }
}

/// A `String` cannot be built in a specification, so the conversion from text is stated by
/// the `ensures` of `from` itself rather than through `from_spec`.
impl<'a> vstd::std_specs::convert::FromSpecImpl<&'a str> for WikiError {
    open spec fn obeys_from_spec() -> bool {
        false
    }

    open spec fn from_spec(s: &'a str) -> WikiError {
        WikiError::Generic(choose|g: String| g@ == s@)
    }
}

impl From<WikiParseError> for WikiError {
    fn from(e: WikiParseError) -> (r: WikiError) {
        WikiError::Parse(e)
    }
}

impl vstd::std_specs::convert::FromSpecImpl<WikiParseError> for WikiError {
    open spec fn obeys_from_spec() -> bool {
        true
    }

    open spec fn from_spec(e: WikiParseError) -> WikiError {
        WikiError::Parse(e)
    }
}

impl From<ChunkingError> for WikiError {
    fn from(e: ChunkingError) -> (r: WikiError) {
        WikiError::Chunking(e)
    }
}

impl vstd::std_specs::convert::FromSpecImpl<ChunkingError> for WikiError {
    open spec fn obeys_from_spec() -> bool {
        true
    }

    open spec fn from_spec(e: ChunkingError) -> WikiError {
        WikiError::Chunking(e)
    }
}

impl From<EmbeddingError> for WikiError {
    fn from(e: EmbeddingError) -> (r: WikiError) {
        WikiError::Embedding(e)
    }
}

impl vstd::std_specs::convert::FromSpecImpl<EmbeddingError> for WikiError {
    open spec fn obeys_from_spec() -> bool {
        true
    }

    open spec fn from_spec(e: EmbeddingError) -> WikiError {
        WikiError::Embedding(e)
    }
}

impl From<VectorError> for WikiError {
    fn from(e: VectorError) -> (r: WikiError) {
        WikiError::Vector(e)
    }
}

impl vstd::std_specs::convert::FromSpecImpl<VectorError> for WikiError {
    open spec fn obeys_from_spec() -> bool {
        true
    }

    open spec fn from_spec(e: VectorError) -> WikiError {
        WikiError::Vector(e)
    }
}

impl From<MCPServerError> for WikiError {
    fn from(e: MCPServerError) -> (r: WikiError) {
        WikiError::MCP(e)
    }
}

impl vstd::std_specs::convert::FromSpecImpl<MCPServerError> for WikiError {
    open spec fn obeys_from_spec() -> bool {
        true
    }

    open spec fn from_spec(e: MCPServerError) -> WikiError {
        WikiError::MCP(e)
    }
}

impl From<ConfigError> for WikiError {
    fn from(e: ConfigError) -> (r: WikiError) {
        WikiError::Config(e)
    }
}

impl vstd::std_specs::convert::FromSpecImpl<ConfigError> for WikiError {
    open spec fn obeys_from_spec() -> bool {
        true
    }

    open spec fn from_spec(e: ConfigError) -> WikiError {
        WikiError::Config(e)
    }
}

/// Errors of the dump reader.
#[derive(Debug)]
pub enum ParseError {
    XmlError(String),
    /// An I/O failure, by its message.
    IoError(String),
    EncodingError(String),
}

impl ParseError {
    pub open spec fn message(&self) -> Seq<char> {
        match self {
            ParseError::XmlError(s) => "XML parsing error: "@ + s@,
            ParseError::IoError(s) => "IO error: "@ + s@,
            ParseError::EncodingError(s) => "Encoding error: "@ + s@,
        }
    }

    /// The error's message.
    pub fn to_string(&self) -> (r: String)
        ensures
            r@ == self.message(),
    {
        match self {
            ParseError::XmlError(s) => concat2("XML parsing error: ", s.as_str()),
            ParseError::IoError(s) => concat2("IO error: ", s.as_str()),
            ParseError::EncodingError(s) => concat2("Encoding error: ", s.as_str()),
        }
    }
}

impl From<ParseError> for WikiParseError {
    fn from(e: ParseError) -> (r: WikiParseError) {
        match e {
            ParseError::XmlError(m) => WikiParseError::XmlError(m),
            ParseError::IoError(m) => WikiParseError::IoError(m),
            ParseError::EncodingError(m) => WikiParseError::EncodingError(m),
        }
    }
}

impl vstd::std_specs::convert::FromSpecImpl<ParseError> for WikiParseError {
    open spec fn obeys_from_spec() -> bool {
        true
    }

    open spec fn from_spec(e: ParseError) -> WikiParseError {
        match e {
            ParseError::XmlError(m) => WikiParseError::XmlError(m),
            ParseError::IoError(m) => WikiParseError::IoError(m),
            ParseError::EncodingError(m) => WikiParseError::EncodingError(m),
        }
    }
}

} // verus!
