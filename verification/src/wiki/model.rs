//! The wiki pipeline's data: articles, chunks, configuration and vector-store metadata.
use vstd::prelude::*;
use vstd::string::*;
use crate::proxy::request_log::concat2;
use crate::text::{blen, byte_len, decimal, u64_to_decimal};

verus! {

/// A point in time: seconds since the Unix epoch and nanoseconds within the second.
#[derive(Debug, Clone, Copy, PartialEq, Eq, Structural)]
pub struct Timestamp {
    pub secs: i64,
    pub nanos: u32,
}

/// A wiki article.
#[derive(Debug)]
pub struct Article {
    pub id: String,
    pub title: String,
    /// Raw text, possibly with markup.
    pub text: String,
    /// Text with the markup removed.
    pub cleaned_text: Option<String>,
    /// Namespace (0 = article, 1 = talk, ...).
    pub namespace: i32,
    /// The target title, for a redirect.
    pub redirects_to: Option<String>,
    /// Last modification.
    pub timestamp: Timestamp,
    pub created_at: Option<Timestamp>,
}

impl Article {
    pub fn new(id: String, title: String, text: String, namespace: i32, timestamp: Timestamp) -> (r: Self)
        ensures
            r.id@ == id@,
            r.title@ == title@,
            r.text@ == text@,
            r.cleaned_text is None,
            r.namespace == namespace,
            r.redirects_to is None,
            r.timestamp == timestamp,
            r.created_at is None,
    {
        Article {
            id,
            title,
            text,
            cleaned_text: None,
            namespace,
            redirects_to: None,
            timestamp,
            created_at: None,
        }
    }

    /// Whether the article is a redirect.
    pub fn is_redirect(&self) -> (r: bool)
        ensures
            r == self.redirects_to is Some,
    {
        self.redirects_to.is_some()
    }

    /// The cleaned text, or the raw text when there is none.
    pub fn get_text(&self) -> (r: &str)
        ensures
            r@ == match self.cleaned_text {
                Some(c) => c@,
                None => self.text@,
            },
    {
        match &self.cleaned_text {
            Some(c) => c.as_str(),
            None => self.text.as_str(),
        }
    }
}

/// A piece of an article, embedded and searched on its own.
#[derive(Debug)]
pub struct Chunk {
    pub id: String,
    pub article_id: String,
    pub article_title: String,
    /// Position within the article, from 0.
    pub chunk_index: usize,
    /// Section path such as `History/Early Period`.
    pub section_path: Option<String>,
    pub text: String,
    pub token_count: usize,
    /// Offset within the article.
    pub offset: Option<u32>,
    /// Length of the text in bytes.
    pub length: usize,
}

impl Chunk {
    pub fn new(
        id: String,
        article_id: String,
        article_title: String,
        chunk_index: usize,
        text: String,
        token_count: usize,
    ) -> (r: Self)
        ensures
            r.id@ == id@,
            r.article_id@ == article_id@,
            r.article_title@ == article_title@,
            r.chunk_index == chunk_index,
            r.section_path is None,
            r.text@ == text@,
            r.token_count == token_count,
            r.offset is None,
            r.length == blen(text@),
    {
        let length = byte_len(text.as_str());
        Chunk {
            id,
            article_id,
            article_title,
            chunk_index,
            section_path: None,
            text,
            token_count,
            offset: None,
            length,
        }
    }

    /// The chunk with a section path.
    pub fn with_section_path(self, path: String) -> (r: Self)
        ensures
            r.section_path matches Some(p) && p@ == path@,
            r.id == self.id,
            r.article_id == self.article_id,
            r.article_title == self.article_title,
            r.chunk_index == self.chunk_index,
            r.text == self.text,
            r.token_count == self.token_count,
            r.offset == self.offset,
            r.length == self.length,
    {
        let mut c = self;
        c.section_path = Some(path);
        c
    }

    /// The chunk with an offset.
    pub fn with_offset(self, offset: u32) -> (r: Self)
        ensures
            r.offset == Some(offset),
            r.id == self.id,
            r.article_id == self.article_id,
            r.article_title == self.article_title,
            r.chunk_index == self.chunk_index,
            r.section_path == self.section_path,
            r.text == self.text,
            r.token_count == self.token_count,
            r.length == self.length,
    {
        let mut c = self;
        c.offset = Some(offset);
        c
    }
}

/// Default minimum chunk size, in tokens.
pub fn default_chunk_min() -> (r: usize)
    ensures
        r == 300,
{
    300
}

/// Default maximum chunk size, in tokens.
pub fn default_chunk_max() -> (r: usize)
    ensures
        r == 800,
{
    800
}

/// Default embedding model name.
pub fn default_model() -> (r: String)
    ensures
        r@ == "bge-small-en-v1.5"@,
{
    String::from_str("bge-small-en-v1.5")
}

/// Default vector-store host.
pub fn default_qdrant_host() -> (r: String)
    ensures
        r@ == "localhost"@,
{
    String::from_str("localhost")
}

/// Default vector-store port.
pub fn default_qdrant_port() -> (r: u16)
    ensures
        r == 6333,
{
    6333
}

/// Default collection name.
pub fn default_collection() -> (r: String)
    ensures
        r@ == "wikipedia_chunks"@,
{
    String::from_str("wikipedia_chunks")
}

/// The embedding models the pipeline can use.
#[derive(Debug, Clone, Copy, PartialEq, Eq, Structural)]
pub enum EmbeddingModel {
    BGESmallEnV15,
    AllMiniLML6V2,
    AllMPNetBaseV2,
    BGEBaseEnV15,
}

pub open spec fn spec_dimension(m: EmbeddingModel) -> nat {
    match m {
        EmbeddingModel::BGESmallEnV15 | EmbeddingModel::AllMiniLML6V2 => 384,
        EmbeddingModel::AllMPNetBaseV2 | EmbeddingModel::BGEBaseEnV15 => 768,
    }
}

pub open spec fn spec_model_name(m: EmbeddingModel) -> Seq<char> {
    match m {
        EmbeddingModel::BGESmallEnV15 => "bge-small-en-v1.5-onnx-q"@,
        EmbeddingModel::AllMiniLML6V2 => "all-MiniLM-L6-v2"@,
        EmbeddingModel::AllMPNetBaseV2 => "all-mpnet-base-v2"@,
        EmbeddingModel::BGEBaseEnV15 => "bge-base-en-v1.5"@,
    }
}

impl EmbeddingModel {
    /// Length of the vectors the model produces.
    pub fn dimension(&self) -> (r: usize)
        ensures
            r == spec_dimension(*self),
    {
        match self {
            EmbeddingModel::BGESmallEnV15 | EmbeddingModel::AllMiniLML6V2 => 384,
            EmbeddingModel::AllMPNetBaseV2 | EmbeddingModel::BGEBaseEnV15 => 768,
        }
    }

    /// The model's name as printed and recorded with each embedding.
    pub fn name(&self) -> (r: &'static str)
        ensures
            r@ == spec_model_name(*self),
    {
        match self {
            EmbeddingModel::BGESmallEnV15 => "bge-small-en-v1.5-onnx-q",
            EmbeddingModel::AllMiniLML6V2 => "all-MiniLM-L6-v2",
            EmbeddingModel::AllMPNetBaseV2 => "all-mpnet-base-v2",
            EmbeddingModel::BGEBaseEnV15 => "bge-base-en-v1.5",
        }
    }
}

/// Embedding model selection.
#[derive(Debug)]
pub struct EmbeddingConfig {
    pub model: EmbeddingModel,
    /// Where downloaded models are cached.
    pub cache_dir: Option<String>,
    pub show_progress: bool,
}

impl Default for EmbeddingConfig {
    fn default() -> (r: Self)
        ensures
            r.model == EmbeddingModel::BGESmallEnV15,
            r.cache_dir is None,
            r.show_progress,
    {
        EmbeddingConfig { model: EmbeddingModel::BGESmallEnV15, cache_dir: None, show_progress: true }
    }
}

/// How to reach the vector store.
#[derive(Debug)]
pub struct QdrantConfig {
    pub host: String,
    pub port: u16,
    pub tls: bool,
    pub api_key: Option<String>,
}

impl Default for QdrantConfig {
    fn default() -> (r: Self)
        ensures
            r.host@ == "localhost"@,
            r.port == 6333,
            !r.tls,
            r.api_key is None,
    {
        QdrantConfig { host: String::from_str("localhost"), port: 6333, tls: false, api_key: None }
    }
}

impl QdrantConfig {
    /// The URL a client connects to: `http[s]://host:port`.
    pub fn client_url(&self) -> (r: String)
        ensures
            r@ == (if self.tls {
                "https://"@
            } else {
                "http://"@
            }) + self.host@ + ":"@ + decimal(self.port as nat),
    {
        let scheme = if self.tls {
            "https://"
        } else {
            "http://"
        };
        let a = concat2(scheme, self.host.as_str());
        let b = concat2(a.as_str(), ":");
        let p = u64_to_decimal(self.port as u64);
        concat2(b.as_str(), p.as_str())
    }
}

/// A value stored with a point in the vector store.
#[derive(Debug, PartialEq, Eq)]
pub enum PayloadValue {
    Text(String),
    Int(i64),
}

pub enum PayloadValueV {
    Text(Seq<char>),
    Int(i64),
}

impl View for PayloadValue {
    type V = PayloadValueV;

    open spec fn view(&self) -> PayloadValueV {
        match self {
            PayloadValue::Text(s) => PayloadValueV::Text(s@),
            PayloadValue::Int(i) => PayloadValueV::Int(*i),
        }
    }
}

/// Chunk metadata stored with its vector.
#[derive(Debug)]
pub struct ChunkMetadata {
    pub title: String,
    pub section_path: Option<String>,
    pub text: String,
    pub offset: Option<u32>,
    pub namespace: i32,
}

pub open spec fn payload_views(p: Seq<(String, PayloadValue)>) -> Seq<(Seq<char>, PayloadValueV)> {
    p.map_values(|e: (String, PayloadValue)| (e.0@, e.1@))
}

impl ChunkMetadata {
    /// The payload: title, section path (if any), text, offset (if any), namespace.
    pub open spec fn spec_payload(&self) -> Seq<(Seq<char>, PayloadValueV)> {
        seq![("title"@, PayloadValueV::Text(self.title@))] + match self.section_path {
            Some(p) => seq![("section_path"@, PayloadValueV::Text(p@))],
            None => seq![],
        } + seq![("text"@, PayloadValueV::Text(self.text@))] + match self.offset {
            Some(o) => seq![("offset"@, PayloadValueV::Int(o as i64))],
            None => seq![],
        } + seq![("namespace"@, PayloadValueV::Int(self.namespace as i64))]
    }

    /// The payload stored with the chunk's vector, as `(key, value)` pairs.
    pub fn to_payload(&self) -> (r: Vec<(String, PayloadValue)>)
        ensures
            payload_views(r@) == self.spec_payload(),
    {
        let mut p: Vec<(String, PayloadValue)> = Vec::new();
        p.push((String::from_str("title"), PayloadValue::Text(self.title.clone())));
        match &self.section_path {
            Some(s) => p.push((String::from_str("section_path"), PayloadValue::Text(s.clone()))),
            None => {},
        }
        p.push((String::from_str("text"), PayloadValue::Text(self.text.clone())));
        match self.offset {
            Some(o) => p.push((String::from_str("offset"), PayloadValue::Int(o as i64))),
            None => {},
        }
        p.push((String::from_str("namespace"), PayloadValue::Int(self.namespace as i64)));
        assert(payload_views(p@) =~= self.spec_payload());
        p
    }
}

/// A condition a search result must meet.
#[derive(Debug, PartialEq, Eq)]
pub enum FilterCondition {
    /// The `title` field equals the text.
    Title(String),
    /// The `namespace` field equals the number.
    Namespace(i64),
}

/// The conditions of a search filter: title first, then namespace; no filter without any.
pub fn build_filter(title: Option<&str>, namespace: Option<i32>) -> (r: Option<Vec<FilterCondition>>)
    ensures
        r is None <==> (title is None && namespace is None),
        r matches Some(v) ==> v.len() == (if title is Some { 1int } else { 0 }) + (if namespace is Some {
            1int
        } else {
            0
        }),
        r matches Some(v) ==> (title matches Some(t) ==> v@[0] matches FilterCondition::Title(s)
            && s@ == t@),
        r matches Some(v) ==> (namespace matches Some(n) ==> v@[v.len() - 1]
            == FilterCondition::Namespace(n as i64)),
{
    let mut must: Vec<FilterCondition> = Vec::new();
    match title {
        Some(t) => must.push(FilterCondition::Title(String::from_str(t))),
        None => {},
    }
    match namespace {
        Some(n) => must.push(FilterCondition::Namespace(n as i64)),
        None => {},
    }
    if must.len() == 0 {
        None
    } else {
        Some(must)
    }
}

} // verus!
