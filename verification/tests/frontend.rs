use publish_core::file_processor::FileProcessResult;
use publish_core::file_processor::ProcessingError;
use publish_core::file_processor::DEFAULT_CHUNK_SIZE;
use publish_core::grpc::GrpcService;
use publish_core::grpc::PublishError;
use publish_core::grpc::PublishFileResponse;
use publish_core::grpc::PublishService;
use publish_core::grpc::LISTEN_HOST;
use publish_core::merkle::digest;

#[test]
fn listens_on_the_local_host_at_its_port() {
    assert_eq!(LISTEN_HOST, "127.0.0.1");
    assert_eq!(GrpcService::new(50051).address(), "127.0.0.1:50051");
    assert_eq!(GrpcService::new(0).address(), "127.0.0.1:0");
    assert_eq!(GrpcService::new(65535).address(), "127.0.0.1:65535");
    assert_eq!(GrpcService::new(8080).port(), 8080);
}

#[test]
fn publish_processes_with_the_default_chunk_size() {
    let service = PublishService::new();
    let data: Vec<u8> = (0..DEFAULT_CHUNK_SIZE + 10).map(|i| (i % 255) as u8).collect();
    let processed = service.publish_file(Ok(data.clone()), "chunks/3".to_string()).unwrap();
    assert_eq!(processed.chunk_count(), 2);
    assert_eq!(processed.chunk(0).unwrap().len(), DEFAULT_CHUNK_SIZE);
    assert_eq!(processed.chunk(1).unwrap(), &data[DEFAULT_CHUNK_SIZE..].to_vec());
    let first = processed.chunk(0).unwrap().clone();
    let result = processed.complete(Ok(())).unwrap();
    assert_eq!(result.number_of_chunks, 2);
    let confirmed = service.confirm(result.clone(), &first);
    assert_eq!(confirmed, Ok(result));
}

#[test]
fn publish_reports_processing_errors() {
    let service = PublishService::new();
    assert_eq!(
        service.publish_file(Ok(Vec::new()), "d".to_string()).err(),
        Some(PublishError::Processing(ProcessingError::EmptySource))
    );
    assert_eq!(
        service.publish_file(Err("gone".to_string()), "d".to_string()).err(),
        Some(PublishError::Processing(ProcessingError::SourceUnreadable("gone".to_string())))
    );
}

#[test]
fn stored_chunk_that_does_not_verify_withholds_the_result() {
    let service = PublishService::new();
    let result = FileProcessResult {
        merkle_root: digest(b"chunk"),
        number_of_chunks: 1,
        merkle_proofs: vec![Vec::new()],
        chunks_directory: "d".to_string(),
    };
    assert_eq!(service.confirm(result.clone(), b"chunk"), Ok(result.clone()));
    assert_eq!(
        service.confirm(result, b"chunk as damaged on disk"),
        Err(PublishError::Processing(ProcessingError::Integrity { index: 0 }))
    );
}

#[test]
fn response_says_whether_the_result_was_handed_on() {
    let service = PublishService::new();
    assert_eq!(
        service.respond(true),
        Ok(PublishFileResponse { success: true, error: String::new() })
    );
    assert_eq!(service.respond(false), Err(PublishError::ChannelClosed));
}
