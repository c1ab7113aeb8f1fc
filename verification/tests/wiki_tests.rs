use agentkit::wiki::errors::{
    ChunkingError, ConfigError, EmbeddingError, MCPServerError, ParseError, VectorError,
    WikiError, WikiParseError,
};
use agentkit::wiki::model::{
    build_filter, default_chunk_max, default_chunk_min, default_collection, default_model,
    default_qdrant_host, default_qdrant_port, Chunk, ChunkMetadata, EmbeddingConfig,
    EmbeddingModel, FilterCondition, PayloadValue, QdrantConfig,
};

#[test]
fn test_wiki_parse_error_display() {
    let err = WikiParseError::MissingField {
        field: "title".to_string(),
        context: "page element".to_string(),
    };
    assert!(err.to_string().contains("title"));
    assert!(err.to_string().contains("page element"));
}

#[test]
fn test_chunking_error_display() {
    let err = ChunkingError::InvalidChunkSize(0);
    assert!(err.to_string().contains("0"));
}

#[test]
fn test_embedding_error_display() {
    let err = EmbeddingError::InvalidDimension { expected: 384, actual: 512 };
    assert!(err.to_string().contains("384"));
    assert!(err.to_string().contains("512"));
}

#[test]
fn test_vector_error_display() {
    let err = VectorError::CollectionNotFound("test_collection".to_string());
    assert!(err.to_string().contains("test_collection"));
}

#[test]
fn test_mcp_error_display() {
    let err = MCPServerError::ToolNotFound("wiki_search".to_string());
    assert!(err.to_string().contains("wiki_search"));
}

#[test]
fn test_config_error_display() {
    let err = ConfigError::InvalidValue {
        field: "chunk_size".to_string(),
        value: "-1".to_string(),
        reason: "must be positive".to_string(),
    };
    assert!(err.to_string().contains("chunk_size"));
    assert!(err.to_string().contains("-1"));
}

#[test]
fn test_wiki_error_from_string() {
    let err: WikiError = "test error".to_string().into();
    match err {
        WikiError::Generic(s) => assert_eq!(s, "test error"),
        _ => panic!("Expected Generic error"),
    }
}

#[test]
fn test_wiki_error_from_str() {
    let err: WikiError = "test error".into();
    match err {
        WikiError::Generic(s) => assert_eq!(s, "test error"),
        _ => panic!("Expected Generic error"),
    }
}

#[test]
fn error_messages_exact() {
    assert_eq!(
        ChunkingError::OverlapTooLarge(60, 50).to_string(),
        "Overlap too large: 60% exceeds maximum 50%"
    );
    assert_eq!(ChunkingError::InvalidChunkSize(0).to_string(), "Invalid chunk size: 0 (must be > 0)");
    assert_eq!(MCPServerError::NotInitialized.to_string(), "Server not initialized");
    let e: WikiError = VectorError::SearchError("boom".to_string()).into();
    assert_eq!(e.to_string(), "Vector error: Search failed: boom");
    let p: WikiParseError = ParseError::EncodingError("bad".to_string()).into();
    assert_eq!(p.to_string(), "Invalid encoding: bad");
    assert_eq!(
        ConfigError::InvalidValue {
            field: "a".to_string(),
            value: "b".to_string(),
            reason: "c".to_string()
        }
        .to_string(),
        "Invalid config value: a = b (c)"
    );
}

#[test]
fn test_chunk_creation() {
    let chunk = Chunk::new(
        "chunk-1".to_string(),
        "1".to_string(),
        "Test_Article".to_string(),
        0,
        "Chunk text".to_string(),
        100,
    );
    assert_eq!(chunk.token_count, 100);
    assert_eq!(chunk.length, 10);
}

#[test]
fn chunk_builders_set_their_field() {
    let c = Chunk::new("c".to_string(), "a".to_string(), "T".to_string(), 2, "héllo".to_string(), 1)
        .with_section_path("History".to_string())
        .with_offset(40);
    assert_eq!(c.length, 6);
    assert_eq!(c.section_path.as_deref(), Some("History"));
    assert_eq!(c.offset, Some(40));
    assert_eq!(c.chunk_index, 2);
}

#[test]
fn test_model_dimension() {
    assert_eq!(EmbeddingModel::BGESmallEnV15.dimension(), 384);
    assert_eq!(EmbeddingModel::AllMiniLML6V2.dimension(), 384);
    assert_eq!(EmbeddingModel::AllMPNetBaseV2.dimension(), 768);
    assert_eq!(EmbeddingModel::BGEBaseEnV15.dimension(), 768);
}

#[test]
fn model_names_and_config_default() {
    assert_eq!(EmbeddingModel::BGESmallEnV15.name(), "bge-small-en-v1.5-onnx-q");
    assert_eq!(EmbeddingModel::AllMPNetBaseV2.name(), "all-mpnet-base-v2");
    let c = EmbeddingConfig::default();
    assert_eq!(c.model, EmbeddingModel::BGESmallEnV15);
    assert!(c.cache_dir.is_none());
    assert!(c.show_progress);
}

#[test]
fn test_qdrant_config_default() {
    let config = QdrantConfig::default();
    assert_eq!(config.host, "localhost");
    assert_eq!(config.port, 6333);
    assert!(!config.tls);
    assert!(config.api_key.is_none());
}

#[test]
fn qdrant_client_url() {
    let mut config = QdrantConfig::default();
    assert_eq!(config.client_url(), "http://localhost:6333");
    config.tls = true;
    config.host = "db".to_string();
    assert_eq!(config.client_url(), "https://db:6333");
}

#[test]
fn config_default_values() {
    assert_eq!(default_chunk_min(), 300);
    assert_eq!(default_chunk_max(), 800);
    assert_eq!(default_model(), "bge-small-en-v1.5");
    assert_eq!(default_qdrant_host(), "localhost");
    assert_eq!(default_qdrant_port(), 6333);
    assert_eq!(default_collection(), "wikipedia_chunks");
}

#[test]
fn test_chunk_metadata_payload() {
    let metadata = ChunkMetadata {
        title: "Test Article".to_string(),
        section_path: Some("History".to_string()),
        text: "Test text".to_string(),
        offset: Some(100),
        namespace: 0,
    };
    let payload = metadata.to_payload();
    let keys: Vec<&str> = payload.iter().map(|(k, _)| k.as_str()).collect();
    assert_eq!(keys, vec!["title", "section_path", "text", "offset", "namespace"]);
    assert_eq!(payload[3].1, PayloadValue::Int(100));
    let bare = ChunkMetadata {
        title: "T".to_string(),
        section_path: None,
        text: "x".to_string(),
        offset: None,
        namespace: 1,
    };
    assert_eq!(bare.to_payload().len(), 3);
}

#[test]
fn test_filter_building() {
    assert!(build_filter(None, None).is_none());
    assert_eq!(build_filter(Some("Test"), None), Some(vec![FilterCondition::Title("Test".to_string())]));
    assert_eq!(build_filter(None, Some(0)), Some(vec![FilterCondition::Namespace(0)]));
    assert_eq!(
        build_filter(Some("Test"), Some(0)),
        Some(vec![FilterCondition::Title("Test".to_string()), FilterCondition::Namespace(0)])
    );
}
