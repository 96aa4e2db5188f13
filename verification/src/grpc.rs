//! The rules of the request front-end: where it listens, and what a publish
//! request leads to.

use vstd::prelude::*;
use vstd::string::StringExecFns;
use crate::file_processor::FileProcessResult;
use crate::file_processor::processes;
use crate::file_processor::ProcessedFile;
use crate::file_processor::ProcessingError;
use crate::file_processor::Processor;
use crate::file_processor::DEFAULT_CHUNK_SIZE;
use crate::merkle::chunk_verifies;
use crate::text::decimal;
use crate::text::push_decimal;

verus! {

/// The host that the front-end listens on.
pub const LISTEN_HOST: &'static str = "127.0.0.1";

/// Why a publish request failed.
#[derive(Debug, Clone, PartialEq, Eq)]
pub enum PublishError {
    /// The file could not be processed.
    Processing(ProcessingError),
    /// The result could not be handed on: the consumer of the channel is gone.
    ChannelClosed,
}

/// The answer to a publish request.
#[derive(Debug, Clone, PartialEq, Eq)]
pub struct PublishFileResponse {
    pub success: bool,
    pub error: String,
}

/// Whether `chunk` is the first chunk of the file that `result` describes,
/// by the proof that the result keeps for it.
pub open spec fn first_chunk_verifies(result: FileProcessResult, chunk: Seq<u8>) -> bool {
    &&& result.merkle_proofs@.len() > 0
    &&& chunk_verifies(
        result.merkle_root@,
        0,
        chunk,
        result.merkle_proofs@[0]@,
        result.number_of_chunks as int,
    )
}

/// Handles publish requests.
#[derive(Debug)]
pub struct PublishService {}

impl PublishService {
    pub fn new() -> (service: PublishService) {
        PublishService {  }
    }

    /// Processes the source of a publish request with the default chunk
    /// size: what `Processor::process_file` gives, with its error as the
    /// request's.
    pub fn publish_file(&self, source: Result<Vec<u8>, String>, chunks_directory: String) -> (out:
        Result<ProcessedFile, PublishError>)
        ensures
            match out {
                Ok(processed) => processes(
                    DEFAULT_CHUNK_SIZE as nat,
                    source,
                    chunks_directory@,
                    Ok(processed),
                ),
                Err(PublishError::Processing(error)) => processes(
                    DEFAULT_CHUNK_SIZE as nat,
                    source,
                    chunks_directory@,
                    Err(error),
                ),
                Err(PublishError::ChannelClosed) => false,
            },
    {
        match Processor::new().process_file(source, chunks_directory) {
            Ok(processed) => Ok(processed),
            Err(error) => Err(PublishError::Processing(error)),
        }
    }

    /// Checks the first chunk as it was read back from the chunk directory
    /// against the result, before the result is handed on. A chunk that does
    /// not verify is an integrity failure and the result is withheld.
    pub fn confirm(&self, result: FileProcessResult, stored_first_chunk: &[u8]) -> (confirmed:
        Result<FileProcessResult, PublishError>)
        ensures
            match confirmed {
                Ok(same) => same == result && first_chunk_verifies(result, stored_first_chunk@),
                Err(PublishError::Processing(ProcessingError::Integrity { index })) => index == 0
                    && !first_chunk_verifies(result, stored_first_chunk@),
                Err(_) => false,
            },
    {
        if result.chunk_is_valid(0, stored_first_chunk) {
            Ok(result)
        } else {
            Err(PublishError::Processing(ProcessingError::Integrity { index: 0 }))
        }
    }

    /// The answer to the caller once the result was offered to the channel
    /// towards the record store: success where it was taken, an error where
    /// the channel is closed.
    pub fn respond(&self, forwarded: bool) -> (answer: Result<PublishFileResponse, PublishError>)
        ensures
            match answer {
                Ok(response) => forwarded && response.success && response.error@.len() == 0,
                Err(error) => !forwarded && error == PublishError::ChannelClosed,
            },
    {
        if forwarded {
            Ok(PublishFileResponse { success: true, error: String::new() })
        } else {
            Err(PublishError::ChannelClosed)
        }
    }
}

/// The listening side of the front-end.
pub struct GrpcService {
    port: u16,
}

impl GrpcService {
    /// The port that the service listens on.
    pub closed spec fn listen_port(&self) -> u16 {
        self.port
    }

    pub fn new(port: u16) -> (service: GrpcService)
        ensures
            service.listen_port() == port,
    {
        GrpcService { port }
    }

    /// The port that the service listens on.
    pub fn port(&self) -> (port: u16)
        ensures
            port == self.listen_port(),
    {
        self.port
    }

    /// The address that the service listens on: the local host, a colon and
    /// the port in decimal.
    pub fn address(&self) -> (address: String)
        ensures
            address@ == LISTEN_HOST@ + seq![':'] + decimal(self.listen_port() as nat),
    {
        proof {
            reveal_strlit(":");
        }
        let mut address = String::from_str(LISTEN_HOST);
        address.append(":");
        push_decimal(&mut address, self.port as u64);
        address
    }
}

} // verus!
