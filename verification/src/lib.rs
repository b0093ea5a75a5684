//! A standard library of rules for a build system: fetch a possibly
//! compressed tar archive over the network and materialize it as a
//! committed directory tree.
//!
//! The pipeline runs in five stages: detect the compression chain from
//! the transport headers ([`pipeline::detect_codecs`]), build and apply
//! the decode chain ([`decode::decode_chain`]), drain the body into a
//! staged artifact ([`stream::stage_stream`]), reconstruct the tar
//! structure into the destination ([`archive::reconstruct_tar`]), and
//! commit the destination ([`dest::WriteDirectory::close`]). Every error
//! anywhere aborts the run before that final commit, so a failed run
//! never leaves a visible tree.

pub mod archive;
pub mod codec;
pub mod decode;
pub mod dest;
pub mod errors;
pub mod pipeline;
pub mod rules;
pub mod stream;
pub mod text;
