mod bridge;
mod bytemap;
mod fanout;
mod kv;
mod modbus;
mod relay;

pub use bridge::{RuntimeBridge, SendOutcome, classify_send};
pub use bytemap::{ByteMap, bytes_eq};
pub use fanout::{
    FANOUT_CAPACITY, ONE_SHOT_SEQUENCE, PeriodicSource, PollOutcome, Reading, StreamFanout,
    SubscriberHandle, lemma_slow_subscriber_isolation, read_once,
};
pub use kv::{
    ReadItem, ReadReply, ReplyStatus, WriteItem, decode_record, encode_record, internal_error_reply,
    lemma_codec_round_trip, lemma_write_read_round_trip, read_reply, read_reply_raw, write_commands,
};
pub use modbus::{build_modbus_write, modbus_key};
pub use relay::{
    Frame, LastValueRelay, RelayAction, RelayEvent, SubscriptionEvent, clone_bytes,
    decode_subscription_event, lemma_cache_holds_last_value, lemma_cache_overwrite, lemma_cache_step,
    lemma_late_join_replay, lemma_no_replay_unpublished,
};
