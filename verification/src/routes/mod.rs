pub mod execute;
pub mod heartbeat;
pub mod ok_post;
pub mod operation;
pub mod register;
pub mod request_vote;
