//! Publishes the final reply of a conversational turn to a relay, once and durably, or keeps it as a
//! draft.

pub mod batch_laws;
pub mod delivery;
pub mod delivery_laws;
pub mod event;
pub mod fault;
pub mod fault_laws;
pub mod files;
pub mod files_laws;
pub mod fit;
pub mod flush;
pub mod flush_laws;
pub mod inventory;
pub mod inventory_laws;
pub mod names;
pub mod naming_laws;
pub mod outbox;
pub mod outbox_laws;
pub mod outside;
pub mod persist;
pub mod persist_laws;
pub mod publish;
pub mod publish_laws;
pub mod record;
pub mod record_laws;
pub mod reply_laws;
pub mod removal;
pub mod removal_laws;
pub mod slot;
pub mod slot_laws;
pub mod storage_laws;
pub mod storing_laws;
pub mod text;
pub mod text_laws;
pub mod turn;
pub mod turn_laws;
pub mod view_laws;
