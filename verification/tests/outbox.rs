use std::collections::BTreeMap;

use auto_publish::delivery::{Delivery, DeliveryReply, Unsent};
use auto_publish::event::Event;
use auto_publish::fault::{Action, Fault, Notice, OsFailure, OsKind};
use auto_publish::files::{
    create_private_directory, read_bounded, remove_if_present, require_directory, sync_directory,
    BoundedBuffer, Making, Meta, Reading, Reply,
};
use auto_publish::flush::{
    EventFlush, EventStage, Flush, FlushReply, FlushStage, MAX_BATCH,
};
use auto_publish::inventory::{Found, Inventory, InventoryReply};
use auto_publish::names::{has_extension, parse_slot_name, slot_name, stage_name};
use auto_publish::outbox::{
    default_root, namespace, record_name_by_digest, relay_base, Outbox, Root, Setting,
};
use auto_publish::outside::UrlParts;
use auto_publish::persist::{FillStep, Persist, PersistReply, Placed};
use auto_publish::record::{Payload, Record, Stored, MAX_RECORDS, MAX_RECORD_BYTES};
use auto_publish::removal::{Removal, RemovalReply};
use auto_publish::slot::{SlotLoad, SlotReply};
use auto_publish::turn::{OutputMode, TurnOutput};

const ONE: &str = "0000000000000000000000000000000000000000000000000000000000000001";
const ONE_PUBLIC: &str = "79be667ef9dcbbac55a06295ce870b07029bfcdb2dce28d959f2815b16f81798";

fn keys() -> nostr::Keys {
    nostr::Keys::new(nostr::SecretKey::from_hex(ONE).unwrap())
}

fn outbox() -> Outbox {
    Outbox::new("http://127.0.0.1:8080", ONE.to_string(), None, false).unwrap()
}

fn plain(event: &nostr::Event) -> Event {
    Event {
        id: event.id.to_hex(),
        pubkey: event.pubkey.to_hex(),
        created_at: event.created_at.as_secs(),
        kind: event.kind.as_u16(),
        tags: event.tags.iter().map(|tag| tag.as_slice().to_vec()).collect(),
        content: event.content.clone(),
        sig: event.sig.to_string(),
    }
}

fn signed(content: &str) -> Event {
    let builder = nostr::EventBuilder::new(nostr::Kind::from(9u16), content);
    plain(&builder.sign_with_keys(&keys()).unwrap())
}

fn notice<T>(notice: Notice) -> Result<T, Fault> {
    Err(Fault::Notice(notice))
}

fn failure(kind: OsKind) -> OsFailure {
    OsFailure { kind, text: "refused".to_string() }
}

fn os(action: Action) -> Fault {
    Fault::Os { action, text: "refused".to_string() }
}

const DIRECTORY: Meta = Meta { is_dir: true, is_file: false, is_symlink: false, len: 0 };

/// The JSON text of a record.
fn encode(record: &Record) -> Vec<u8> {
    let mut payload = serde_json::Map::new();
    match &record.payload {
        Payload::Pending { event } => {
            payload.insert("type".to_string(), "pending".into());
            let json = auto_publish::delivery::bounded_json(event).unwrap();
            payload.insert("event".to_string(), serde_json::from_slice(&json).unwrap());
        }
        Payload::Deferred { text, reason } => {
            payload.insert("type".to_string(), "deferred".into());
            payload.insert("text".to_string(), text.clone().into());
            payload.insert("reason".to_string(), reason.clone().into());
        }
    }
    let mut whole = serde_json::Map::new();
    whole.insert("version".to_string(), record.version.into());
    whole.insert("namespace".to_string(), record.namespace.clone().into());
    whole.insert("turn_id".to_string(), record.turn_id.clone().into());
    whole.insert("payload".to_string(), serde_json::Value::Object(payload));
    serde_json::to_vec(&serde_json::Value::Object(whole)).unwrap()
}

/// The record that a JSON text holds.
fn parse(bytes: &[u8]) -> Option<Record> {
    let value: serde_json::Value = serde_json::from_slice(bytes).ok()?;
    let text = |value: &serde_json::Value, key: &str| Some(value.get(key)?.as_str()?.to_string());
    let payload = value.get("payload")?;
    let payload = match payload.get("type")?.as_str()? {
        "pending" => {
            let event: nostr::Event = serde_json::from_value(payload.get("event")?.clone()).ok()?;
            Payload::Pending { event: plain(&event) }
        }
        _ => Payload::Deferred { text: text(payload, "text")?, reason: text(payload, "reason")? },
    };
    Some(Record {
        version: value.get("version")?.as_u64()? as u8,
        namespace: text(&value, "namespace")?,
        turn_id: text(&value, "turn_id")?,
        payload,
    })
}

/// An outbox directory in memory.
#[derive(Default)]
struct Disk {
    slots: BTreeMap<usize, BTreeMap<Vec<u8>, Vec<u8>>>,
    strangers: Vec<Vec<u8>>,
}

impl Disk {
    fn read(&self, slot: usize, name: &[u8]) -> Result<Vec<u8>, Fault> {
        let file = self.slots.get(&slot).and_then(|files| files.get(name));
        let mut reading = Reading::Inspect;
        loop {
            let reply = match (&reading, file) {
                (Reading::Done(_), _) => break,
                (_, None) => Reply::Failed(failure(OsKind::NotFound)),
                (Reading::Inspect, Some(bytes)) => Reply::Meta(Meta {
                    is_dir: false,
                    is_file: true,
                    is_symlink: false,
                    len: bytes.len() as u64,
                }),
                (Reading::Contents, Some(bytes)) => Reply::Bytes(bytes.clone()),
            };
            reading = read_bounded(reading, reply);
        }
        match reading {
            Reading::Done(read) => read,
            other => panic!("{other:?}"),
        }
    }

    fn load(&self, outbox: &Outbox, slot: usize) -> Result<Option<Stored>, Fault> {
        let mut names: Vec<Vec<u8>> =
            self.slots.get(&slot).map(|files| files.keys().cloned().collect()).unwrap_or_default();
        names.reverse();
        let mut load = SlotLoad::Inspect;
        loop {
            let reply = match &load {
                SlotLoad::Inspect if self.slots.contains_key(&slot) => {
                    SlotReply::Files(Reply::Meta(DIRECTORY))
                }
                SlotLoad::Inspect => SlotReply::Files(Reply::Failed(failure(OsKind::NotFound))),
                SlotLoad::Open => SlotReply::Files(Reply::Done),
                SlotLoad::Next { .. } => SlotReply::Files(match names.pop() {
                    Some(name) => Reply::Entry { name, shown: String::new() },
                    None => Reply::End,
                }),
                SlotLoad::ReadRecord { name, .. } => SlotReply::Read(self.read(slot, name)),
                SlotLoad::ReadStage { stage, .. } => SlotReply::Read(self.read(slot, stage)),
                SlotLoad::Parse { bytes, .. } => SlotReply::Parsed(parse(bytes)),
                SlotLoad::ProbeRecord { name, .. } => {
                    SlotReply::Exists(Some(self.slots[&slot].contains_key(name)))
                }
                SlotLoad::ProbeStage { stage, .. } => {
                    SlotReply::Exists(Some(self.slots[&slot].contains_key(stage)))
                }
                SlotLoad::Done(_) => break,
            };
            load = outbox.load_slot(slot, load, reply);
        }
        match load {
            SlotLoad::Done(loaded) => loaded,
            other => panic!("{other:?}"),
        }
    }

    fn stock(&self, outbox: &Outbox) -> Result<Found, Fault> {
        let mut entries: Vec<Vec<u8>> =
            self.slots.keys().map(|slot| slot_name(*slot).into_bytes()).collect();
        entries.extend(self.strangers.iter().cloned());
        let mut inventory = Inventory::Require;
        loop {
            let reply = match &inventory {
                Inventory::Require => InventoryReply::Files(Reply::Meta(DIRECTORY)),
                Inventory::Open => InventoryReply::Files(Reply::Done),
                Inventory::Next { .. } => InventoryReply::Files(match entries.pop() {
                    Some(name) => {
                        let shown = format!("/o/{}", String::from_utf8_lossy(&name));
                        Reply::Entry { name, shown }
                    }
                    None => Reply::End,
                }),
                Inventory::Load { slot, .. } => InventoryReply::Loaded(self.load(outbox, *slot)),
                Inventory::Done(_) => break,
            };
            inventory = Outbox::inventory(inventory, reply);
        }
        match inventory {
            Inventory::Done(found) => found,
            other => panic!("{other:?}"),
        }
    }

    /// Stores a record, up to a step before which the machine stops.
    fn store(
        &mut self,
        outbox: &Outbox,
        persist: Persist,
        stop: Option<FillStep>,
    ) -> Result<Placed, Fault> {
        let mut persist = persist;
        loop {
            let reply = match &persist {
                Persist::Encode { record } => PersistReply::Encoded(Ok(encode(record))),
                Persist::Inventory { .. } => PersistReply::Stock(self.stock(outbox)),
                Persist::SyncExisting { .. } => PersistReply::Files(Reply::Done),
                Persist::Reserve { slot, .. } => {
                    if self.slots.contains_key(slot) {
                        PersistReply::Files(Reply::Failed(failure(OsKind::AlreadyExists)))
                    } else {
                        self.slots.insert(*slot, BTreeMap::new());
                        PersistReply::Reserved { shown: format!("/o/{}", slot_name(*slot)) }
                    }
                }
                Persist::Fill { step, slot, stage, bytes, name, .. } => {
                    if stop == Some(*step) {
                        PersistReply::Files(Reply::Failed(failure(OsKind::Other)))
                    } else {
                        let files = self.slots.get_mut(slot).unwrap();
                        assert_eq!(*stage, stage_name(name.as_bytes()));
                        let stage = stage.clone();
                        match step {
                            FillStep::CreateStage => {
                                files.insert(stage, Vec::new());
                            }
                            FillStep::WriteStage => {
                                files.insert(stage, bytes.clone());
                            }
                            FillStep::Link => {
                                let text = files[&stage].clone();
                                files.insert(name.clone().into_bytes(), text);
                            }
                            FillStep::RemoveStage => {
                                files.remove(&stage);
                            }
                            _ => {}
                        }
                        PersistReply::Files(Reply::Done)
                    }
                }
                Persist::Done(_) => break,
            };
            persist = persist.answered(reply);
        }
        match persist {
            Persist::Done(placed) => placed,
            other => panic!("{other:?}"),
        }
    }

    fn remove(&mut self, stored: &Stored) -> Result<(), Fault> {
        let gone = |found: bool| {
            RemovalReply::Files(if found {
                Reply::Done
            } else {
                Reply::Failed(failure(OsKind::NotFound))
            })
        };
        let mut removal = Outbox::remove_accepted(stored);
        loop {
            let reply = match &removal {
                Removal::RemoveStage { slot, stage: file, .. }
                | Removal::RemoveRecord { slot, name: file } => {
                    let files = self.slots.get_mut(slot);
                    gone(files.and_then(|files| files.remove(file)).is_some())
                }
                Removal::ProbeSlot { slot } => {
                    RemovalReply::Exists(Ok(self.slots.contains_key(slot)))
                }
                Removal::RemoveSlot { slot } if !self.slots[slot].is_empty() => {
                    RemovalReply::Files(Reply::Failed(failure(OsKind::Other)))
                }
                Removal::RemoveSlot { slot } => gone(self.slots.remove(slot).is_some()),
                Removal::SyncSlot { .. } | Removal::SyncOutbox => RemovalReply::Files(Reply::Done),
                Removal::Done(_) => break,
            };
            removal = removal.answered(reply);
        }
        match removal {
            Removal::Done(done) => done,
            other => panic!("{other:?}"),
        }
    }

    /// Flushes the outbox to a relay that refuses the events with this content, until so many events
    /// were sent.
    fn flush(
        &mut self,
        outbox: &Outbox,
        refused: &str,
        late_after: usize,
    ) -> (Result<usize, Fault>, Vec<String>) {
        let mut sent: Vec<String> = Vec::new();
        let mut flush: Flush = Outbox::flush();
        loop {
            let reply = match flush.stage() {
                FlushStage::Lock => FlushReply::Locked(true),
                FlushStage::Inventory | FlushStage::Recheck => {
                    FlushReply::Stock(self.stock(outbox))
                }
                FlushStage::Clock { .. } => FlushReply::Late(sent.len() >= late_after),
                FlushStage::SyncSlot { .. } => FlushReply::Files(Reply::Done),
                FlushStage::Deliver { at } => {
                    let event = flush.record(*at).unwrap().record.pending().unwrap();
                    sent.push(event.content.clone());
                    FlushReply::Delivered(send(event, event.content == refused))
                }
                FlushStage::Remove { at } => {
                    FlushReply::Removed(self.remove(flush.record(*at).unwrap()))
                }
                FlushStage::Done(_) => break,
            };
            flush = flush.answered(reply);
        }
        match flush.stage() {
            FlushStage::Done(Ok(accepted)) => (Ok(*accepted), sent),
            FlushStage::Done(Err(fault)) => {
                (Err(Fault::Os { action: Action::Plain, text: fault.text() }), sent)
            }
            other => panic!("{other:?}"),
        }
    }

    fn flush_event(&mut self, outbox: &Outbox, event_id: &str) -> Result<(), String> {
        let mut flush: EventFlush = Outbox::flush_event(event_id);
        loop {
            let reply = match flush.stage() {
                EventStage::Lock => FlushReply::Locked(true),
                EventStage::Inventory => FlushReply::Stock(self.stock(outbox)),
                EventStage::SyncSlot { .. } => FlushReply::Files(Reply::Done),
                EventStage::Deliver { at } => {
                    let event = flush.record(*at).unwrap().record.pending().unwrap();
                    FlushReply::Delivered(send(event, false))
                }
                EventStage::Remove { at } => {
                    FlushReply::Removed(self.remove(flush.record(*at).unwrap()))
                }
                EventStage::Done(_) => break,
            };
            flush = flush.answered(reply);
        }
        match flush.stage() {
            EventStage::Done(Ok(())) => Ok(()),
            EventStage::Done(Err(fault)) => Err(fault.text()),
            other => panic!("{other:?}"),
        }
    }
}

fn send(event: &Event, refused: bool) -> Result<(), Fault> {
    let mut delivery = Outbox::deliver(event);
    loop {
        let reply = match &delivery {
            Delivery::Send { .. } if refused => DeliveryReply::Sent(Err(Unsent {
                fault: Fault::Status { text: "503 Service Unavailable".to_string() },
                retryable: true,
            })),
            Delivery::Send { .. } => DeliveryReply::Sent(Ok(())),
            Delivery::Wait { .. } => DeliveryReply::Waited,
            Delivery::Done(_) => break,
        };
        delivery = delivery.answered(reply);
    }
    match delivery {
        Delivery::Done(done) => done,
        other => panic!("{other:?}"),
    }
}

fn enqueue(disk: &mut Disk, outbox: &Outbox, content: &str) -> (Event, Placed) {
    let event = signed(content);
    let placed = disk.store(outbox, outbox.enqueue("turn", &event), None).unwrap();
    (event, placed)
}

#[test]
fn test_outbox_store_deferred() {
    let outbox = outbox();
    let mut disk = Disk::default();
    let persist = outbox.store_deferred("turn-1", "some text", "some reason");
    let placed = disk.store(&outbox, persist, None).unwrap();
    assert!(disk.slots[&placed.slot].contains_key(placed.name.as_bytes()));
    let stored = disk.load(&outbox, placed.slot).unwrap().unwrap();
    assert_eq!(stored.name, placed.name.into_bytes());
    assert_eq!(stored.record.turn_id, "turn-1");
    assert_eq!(
        stored.record.payload,
        Payload::Deferred { text: "some text".to_string(), reason: "some reason".to_string() }
    );
}

#[test]
fn outbox_is_named_by_relay_and_identity() {
    let expected =
        format!("d30a576c0318716717366ab932e3d7dfbc4009a5bc10176403b60892912f070e-{ONE_PUBLIC}");
    for url in ["http://127.0.0.1:8080", "http://127.0.0.1:8080/", "HTTP://127.0.0.1:8080///"] {
        let outbox =
            Outbox::new(url, ONE.to_string(), Some("tag".to_string()), false).unwrap();
        assert_eq!(outbox.namespace(), expected);
        assert_eq!(outbox.base_url(), "http://127.0.0.1:8080");
        assert_eq!(outbox.public_key(), ONE_PUBLIC);
        assert_eq!(outbox.auth_tag_json(), Some("tag"));
    }
    assert_eq!(namespace(&[0xa5; 32], "k"), format!("{}-k", "a5".repeat(32)));
}

#[test]
fn outboxes_of_other_relays_and_identities_are_apart() {
    let two = format!("{}2", &ONE[..63]);
    let open = |url: &str, key: &str| Outbox::new(url, key.to_string(), None, false).unwrap();
    let names = [
        open("http://127.0.0.1:8080", ONE).namespace().to_string(),
        open("http://127.0.0.1:8081", ONE).namespace().to_string(),
        open("http://127.0.0.1:8080", &two).namespace().to_string(),
    ];
    assert_ne!(names[0], names[1]);
    assert_ne!(names[0], names[2]);
    assert_ne!(names[1], names[2]);
    for name in names {
        assert_eq!(name.len(), 129);
        assert_eq!(&name[64..65], "-");
    }
}

#[test]
fn whatever_was_captured_fits_in_a_draft() {
    let mut output = TurnOutput::begin(OutputMode::ConversationalFinal, "t");
    output.push_text(&"\u{1f41d}".repeat(70_000));
    let reason = output.final_text().unwrap_err();
    let outbox = outbox();
    let mut disk = Disk::default();
    let persist = outbox.store_deferred("t", output.captured_text(), &reason);
    let placed = disk.store(&outbox, persist, None).unwrap();
    let stored = disk.load(&outbox, placed.slot).unwrap().unwrap();
    match stored.record.payload {
        Payload::Deferred { text, .. } => assert_eq!(text.len(), 256 * 1024),
        other => panic!("{other:?}"),
    }
}

#[test]
fn outbox_is_opened_only_for_a_relay() {
    let open = |url: &str, key: &str, empty: bool| {
        Outbox::new(url, key.to_string(), None, empty).map(|_| ()).map_err(|fault| fault.text())
    };
    assert_eq!(open("https://relay.example/path", ONE, false), Ok(()));
    assert_eq!(open("relay", ONE, false), Err("invalid outbox relay URL".to_string()));
    for url in [
        "ws://relay.example",
        "http://user@relay.example",
        "http://:pw@relay.example",
        "http://relay.example/?q",
        "http://relay.example/#f",
    ] {
        assert_eq!(
            open(url, ONE, false),
            Err("outbox relay URL must be HTTP(S), without credentials/query/fragment".to_string()),
            "{url}"
        );
    }
    assert_eq!(
        open("http://relay.example", ONE, true),
        Err("outbox root must not be empty".to_string())
    );
    assert_eq!(
        open("http://relay.example", "00", false),
        Err("invalid outbox secret key".to_string())
    );
}

#[test]
fn relay_url_must_have_a_host_and_nothing_more() {
    let parts = || UrlParts {
        scheme: "https".to_string(),
        host: Some("h".to_string()),
        username: String::new(),
        password: None,
        query: None,
        fragment: None,
        text: "https://h/a//".to_string(),
    };
    assert_eq!(relay_base(&parts()), Some("https://h/a".to_string()));
    assert_eq!(relay_base(&UrlParts { host: None, ..parts() }), None);
    assert_eq!(relay_base(&UrlParts { scheme: "ftp".to_string(), ..parts() }), None);
    assert_eq!(relay_base(&UrlParts { username: "u".to_string(), ..parts() }), None);
    assert_eq!(relay_base(&UrlParts { password: Some(String::new()), ..parts() }), None);
    assert_eq!(relay_base(&UrlParts { query: Some(String::new()), ..parts() }), None);
    assert_eq!(relay_base(&UrlParts { fragment: Some(String::new()), ..parts() }), None);
    let slashes = UrlParts { text: "///".to_string(), ..parts() };
    assert_eq!(relay_base(&slashes), Some(String::new()));
}

#[test]
fn root_comes_from_the_environment() {
    assert_eq!(
        default_root(Setting::Given("/a"), Setting::Given("/h"), false),
        Ok(Root::Configured("/a"))
    );
    assert_eq!(
        default_root(Setting::Unset, Setting::Given("/h"), false),
        Ok(Root::UnderHome("/h"))
    );
    let text = |root: Result<Root<&str>, Fault>| root.unwrap_err().text();
    assert_eq!(
        text(default_root(Setting::Empty, Setting::Given("/h"), false)),
        "BUZZ_ACP_OUTBOX_DIR must not be empty"
    );
    for home in [Setting::Unset, Setting::Empty] {
        assert_eq!(
            text(Outbox::default_root(Setting::Unset, home, false)),
            "set BUZZ_ACP_OUTBOX_DIR or HOME"
        );
    }
    assert_eq!(
        text(Outbox::default_root(Setting::Unset, Setting::Empty, true)),
        "set BUZZ_ACP_OUTBOX_DIR or USERPROFILE"
    );
    assert_eq!(auto_publish::outbox::HOME_DIRECTORIES, (".buzz", "auto-publish-outbox"));
}

#[test]
fn events_are_checked() {
    let outbox = outbox();
    let event = signed("hello");
    assert_eq!(outbox.validate_event(&event), Ok(()));
    let foreign = Event { pubkey: "ab".repeat(32), ..event.clone() };
    assert_eq!(outbox.validate_event(&foreign), notice(Notice::ForeignAuthor));
    let long = Event { content: "x".repeat(256 * 1024 + 1), ..event.clone() };
    assert_eq!(outbox.validate_event(&long), notice(Notice::ContentTooLong));
    let other = Event { content: "changed".to_string(), ..event.clone() };
    assert_eq!(outbox.validate_event(&other), notice(Notice::InvalidEvent));
    let forged = Event { sig: "00".repeat(64), ..event.clone() };
    assert_eq!(outbox.validate_event(&forged), notice(Notice::InvalidEvent));
    let loud = Event { id: event.id.to_uppercase(), ..event.clone() };
    assert_eq!(outbox.validate_event(&loud), notice(Notice::InvalidEvent));
    assert_eq!(outbox.judge_event(&event, false), notice(Notice::InvalidEvent));
    assert_eq!(outbox.judge_event(&other, true), Ok(()));
}

#[test]
fn records_are_checked() {
    let outbox = outbox();
    let record = |version: u8, namespace: &str, turn_id: &str, text: usize, reason: usize| Record {
        version,
        namespace: namespace.to_string(),
        turn_id: turn_id.to_string(),
        payload: Payload::Deferred { text: "t".repeat(text), reason: "r".repeat(reason) },
    };
    let own = outbox.namespace();
    let limit = 256 * 1024;
    assert_eq!(outbox.validate_record(&record(1, own, "t", limit, 4096)), Ok(()));
    assert_eq!(outbox.validate_record(&record(1, own, &"é".repeat(512), 0, 0)), Ok(()));
    for (record, expected) in [
        (record(2, own, "t", 1, 1), Notice::ForeignNamespace),
        (record(1, "other", "t", 1, 1), Notice::ForeignNamespace),
        (record(1, own, "", 1, 1), Notice::TurnIdLength),
        (record(1, own, &"é".repeat(513), 1, 1), Notice::TurnIdLength),
        (record(1, own, "t", limit + 1, 1), Notice::OversizedDraft),
        (record(1, own, "t", 1, 4097), Notice::OversizedDraft),
    ] {
        assert_eq!(outbox.validate_record(&record), notice(expected));
    }
    let pending = Record {
        version: 1,
        namespace: own.to_string(),
        turn_id: "t".to_string(),
        payload: Payload::Pending { event: signed("x") },
    };
    assert_eq!(outbox.validate_record(&pending), Ok(()));
    assert_eq!(outbox.judge_record(&pending, false), notice(Notice::InvalidEvent));
}

#[test]
fn drafts_are_limited_before_they_are_stored() {
    let outbox = outbox();
    let limit = 256 * 1024;
    assert_eq!(
        outbox.store_deferred("t", &"x".repeat(limit + 1), "r"),
        Persist::Done(notice(Notice::DraftTooLong))
    );
    assert_eq!(
        outbox.store_deferred("t", "x", &"r".repeat(4097)),
        Persist::Done(notice(Notice::DraftTooLong))
    );
    assert_eq!(outbox.store_deferred("", "x", "r"), Persist::Done(notice(Notice::TurnIdLength)));
    assert_eq!(
        outbox.enqueue(&"t".repeat(1025), &signed("x")),
        Persist::Done(notice(Notice::TurnIdLength))
    );
    assert_eq!(
        outbox.enqueue("t", &Event { sig: "00".repeat(64), ..signed("x") }),
        Persist::Done(notice(Notice::InvalidEvent))
    );
}

#[test]
fn records_are_named_by_event_or_digest() {
    let draft = Record {
        version: 1,
        namespace: "n".to_string(),
        turn_id: "t".to_string(),
        payload: Payload::Deferred { text: String::new(), reason: String::new() },
    };
    assert_eq!(
        Outbox::record_name(&draft, b"draft"),
        "deferred-7743ce348d9284d677a185f33295b92266cc435a5b5f775029b300066d26693a.json"
    );
    let event = signed("x");
    let name = format!("{}.json", event.id);
    let pending = Record { payload: Payload::Pending { event }, ..draft };
    assert_eq!(record_name_by_digest(&pending, &[7; 32]), name);
    let draft = Record {
        payload: Payload::Deferred { text: String::new(), reason: String::new() },
        ..pending
    };
    assert_eq!(
        record_name_by_digest(&draft, &[7; 32]),
        format!("deferred-{}.json", "07".repeat(32))
    );
}

#[test]
fn slots_and_files_have_plain_names() {
    assert_eq!(slot_name(0), "slot-0000");
    assert_eq!(slot_name(63), "slot-0063");
    for slot in 0..MAX_RECORDS {
        assert_eq!(parse_slot_name(slot_name(slot).as_bytes()), Some(slot));
        assert!(slot == 0 || slot_name(slot - 1) < slot_name(slot));
    }
    for name in ["slot-0064", "slot-1", "slot-+001", "slot-00001", "Slot-0001", "slot-", ""] {
        assert_eq!(parse_slot_name(name.as_bytes()), None, "{name}");
    }
    assert!(has_extension(b"a.json", "json"));
    assert!(has_extension(b"a.b.json", "json"));
    assert!(!has_extension(b".json", "json"));
    assert!(!has_extension(b"json", "json"));
    assert!(!has_extension(b"a.json.stage", "json"));
    assert!(!has_extension(b"..", ""));
    assert_eq!(stage_name(b"a.b.json"), b"a.b.stage".to_vec());
    assert_eq!(stage_name(b"plain"), b"plain.stage".to_vec());
}

#[test]
fn same_record_is_stored_once() {
    let outbox = outbox();
    let mut disk = Disk::default();
    let (event, first) = enqueue(&mut disk, &outbox, "hello");
    assert_eq!(first, Placed { slot: 0, name: format!("{}.json", event.id) });
    let (_, second) = enqueue(&mut disk, &outbox, "other");
    assert_eq!(second.slot, 1);
    let again = disk.store(&outbox, outbox.enqueue("later turn", &event), None);
    assert_eq!(again, Ok(first));
    assert_eq!(disk.slots.len(), 2);
    let draft = || outbox.store_deferred("t", "draft", "r");
    let placed = disk.store(&outbox, draft(), None).unwrap();
    assert_eq!(placed.slot, 2);
    assert_eq!(disk.store(&outbox, draft(), None), Ok(placed));
    assert_eq!(disk.slots.len(), 3);
}

#[test]
fn free_slots_are_reused_in_order_until_the_outbox_is_full() {
    let outbox = outbox();
    let mut disk = Disk::default();
    for slot in 0..MAX_RECORDS {
        let persist = outbox.store_deferred("t", &format!("draft {slot}"), "r");
        assert_eq!(disk.store(&outbox, persist, None).unwrap().slot, slot);
    }
    let one_more = || outbox.store_deferred("t", "one more", "r");
    assert_eq!(disk.store(&outbox, one_more(), None), notice(Notice::OutboxFull));
    assert_eq!(
        Fault::Notice(Notice::OutboxFull).text(),
        "outbox full: 64 slots, at most 134217728 bytes; existing records retained"
    );
    disk.slots.remove(&17);
    assert_eq!(disk.store(&outbox, one_more(), None).unwrap().slot, 17);
}

#[test]
fn interrupted_store_is_whole_or_visibly_unfinished() {
    let outbox = outbox();
    for (step, action, loads) in [
        (FillStep::SyncOutbox, Action::SyncDirectory, false),
        (FillStep::CreateStage, Action::CreateStage, false),
        (FillStep::WriteStage, Action::SyncRecord, false),
        (FillStep::Link, Action::PublishRecord, false),
        (FillStep::SyncSlot, Action::SyncDirectory, true),
        (FillStep::RemoveStage, Action::RemoveFile, true),
        (FillStep::SyncSlotAgain, Action::SyncDirectory, true),
    ] {
        let mut disk = Disk::default();
        let persist = outbox.store_deferred("t", "draft", "r");
        assert_eq!(
            disk.store(&outbox, persist, Some(step)),
            Err(Fault::RetainedSlot {
                shown: "/o/slot-0000".to_string(),
                cause: Box::new(os(action)),
            })
        );
        let found = disk.stock(&outbox).unwrap();
        assert_eq!(found.records.len(), usize::from(loads), "{step:?}");
        assert_eq!(found.faults.len(), usize::from(!loads), "{step:?}");
        let next = disk.store(&outbox, outbox.store_deferred("t", "next", "r"), None);
        match next {
            Ok(placed) => assert!(loads && placed.slot == 1),
            Err(fault) => {
                assert!(!loads);
                assert_eq!(
                    fault.text(),
                    "outbox needs recovery: /o/slot-0000: incomplete outbox slot; retained for manual recovery"
                );
            }
        }
    }
}

#[test]
fn storing_reports_what_failed() {
    let reserve = || Persist::Reserve { slot: 3, bytes: vec![1], name: "n.json".to_string() };
    assert_eq!(
        reserve().answered(PersistReply::Files(Reply::Failed(failure(OsKind::Other)))),
        Persist::Done(Err(os(Action::ReserveSlot)))
    );
    let existing = Persist::SyncExisting { slot: 3, name: "n.json".to_string() };
    assert_eq!(
        existing.answered(PersistReply::Files(Reply::Failed(failure(OsKind::Other)))),
        Persist::Done(Err(os(Action::SyncDirectory)))
    );
    let record = || Record {
        version: 1,
        namespace: "n".to_string(),
        turn_id: "t".to_string(),
        payload: Payload::Deferred { text: String::new(), reason: String::new() },
    };
    let encode = || Persist::Encode { record: record() };
    assert_eq!(
        encode().answered(PersistReply::Encoded(Ok(vec![0; MAX_RECORD_BYTES + 1]))),
        Persist::Done(notice(Notice::RecordTooLong))
    );
    assert_eq!(
        encode().answered(PersistReply::Encoded(Err(os(Action::Plain)))),
        Persist::Done(Err(os(Action::Plain)))
    );
    let stock = Persist::Inventory { bytes: vec![], name: "n.json".to_string() };
    assert_eq!(
        stock.answered(PersistReply::Stock(Err(os(Action::ReadDirectory)))),
        Persist::Done(Err(os(Action::ReadDirectory)))
    );
    let missing = Persist::Fill {
        step: FillStep::RemoveStage,
        slot: 3,
        shown: "/s".to_string(),
        stage: b"n.stage".to_vec(),
        bytes: vec![1],
        name: "n.json".to_string(),
    };
    match missing.answered(PersistReply::Files(Reply::Failed(failure(OsKind::NotFound)))) {
        Persist::Fill { step, .. } => assert_eq!(step, FillStep::SyncSlotAgain),
        other => panic!("{other:?}"),
    }
    assert_eq!(
        Fault::RetainedSlot { shown: "/s".to_string(), cause: Box::new(os(Action::SyncRecord)) }
            .text(),
        "sync outbox record: refused; retained slot /s needs inspection"
    );
}

#[test]
fn slot_loads_only_a_record_under_its_own_name() {
    let outbox = outbox();
    let mut disk = Disk::default();
    let (event, placed) = enqueue(&mut disk, &outbox, "hello");
    let name = placed.name.clone().into_bytes();
    let stage = stage_name(&name);
    let bytes = disk.slots[&0][&name].clone();
    let with = |files: Vec<(&[u8], &[u8])>| Disk {
        slots: BTreeMap::from([(
            0,
            files.into_iter().map(|(name, bytes)| (name.to_vec(), bytes.to_vec())).collect(),
        )]),
        strangers: vec![],
    };
    let loads = |disk: Disk| disk.load(&outbox, 0).map(|stored| stored.map(|stored| stored.name));
    assert_eq!(loads(with(vec![(&name, &bytes)])), Ok(Some(name.clone())));
    assert_eq!(loads(with(vec![(&name, &bytes), (&stage, &bytes)])), Ok(Some(name.clone())));
    assert_eq!(
        loads(with(vec![(&name, &bytes), (&stage, b"half")])),
        notice(Notice::StageMismatch)
    );
    assert_eq!(
        loads(with(vec![(&name, &bytes), (b"other.stage", &bytes)])),
        notice(Notice::ForeignStage)
    );
    assert_eq!(loads(with(vec![(&stage, &bytes)])), notice(Notice::IncompleteSlot));
    assert_eq!(loads(with(vec![])), notice(Notice::IncompleteSlot));
    assert_eq!(loads(with(vec![(b"other.json", &bytes)])), notice(Notice::NameMismatch));
    assert_eq!(loads(with(vec![(&name, b"{}")])), notice(Notice::InvalidJson));
    assert_eq!(loads(with(vec![(b"notes.txt", &bytes)])), notice(Notice::UnexpectedFile));
    assert_eq!(
        loads(with(vec![(b"a.json", &bytes), (b"b.json", &bytes)])),
        notice(Notice::UnexpectedFile)
    );
    assert_eq!(
        loads(with(vec![(b"a.json", &bytes), (b"b.stage", &bytes), (b"c.stage", &bytes)])),
        notice(Notice::FileQuota)
    );
    assert_eq!(loads(Disk::default()), Ok(None));
    let foreign = Outbox::new("http://other.example", ONE.to_string(), None, false).unwrap();
    assert_eq!(disk.load(&foreign, 0), notice(Notice::ForeignNamespace));
    let stored = disk.load(&outbox, 0).unwrap().unwrap();
    assert_eq!(stored.record.payload, Payload::Pending { event });
}

#[test]
fn altered_draft_is_refused() {
    let outbox = outbox();
    let mut disk = Disk::default();
    let persist = outbox.store_deferred("t", "draft", "reason");
    let placed = disk.store(&outbox, persist, None).unwrap();
    let name = placed.name.into_bytes();
    let bytes = disk.slots[&placed.slot][&name].clone();
    for at in 0..bytes.len() {
        let mut altered = bytes.clone();
        altered[at] ^= 1;
        disk.slots.get_mut(&placed.slot).unwrap().insert(name.clone(), altered);
        assert!(disk.load(&outbox, placed.slot).is_err(), "{at}");
    }
    disk.slots.get_mut(&placed.slot).unwrap().insert(name, bytes);
    assert!(disk.load(&outbox, placed.slot).unwrap().is_some());
}

#[test]
fn event_of_another_turn_is_kept_despite_faults() {
    let outbox = outbox();
    let mut disk = Disk::default();
    let (event, first) = enqueue(&mut disk, &outbox, "hello");
    disk.strangers.push(b"lost+found".to_vec());
    assert_eq!(disk.store(&outbox, outbox.enqueue("another", &event), None), Ok(first));
    let new = disk.store(&outbox, outbox.enqueue("another", &signed("new")), None);
    assert_eq!(
        new.unwrap_err().text(),
        "outbox needs recovery: unexpected outbox directory entry; retained for inspection"
    );
}

#[test]
fn accepted_records_go_even_where_the_flush_ends_with_faults() {
    let outbox = outbox();
    let mut disk = Disk::default();
    for content in ["a", "b", "c"] {
        enqueue(&mut disk, &outbox, content);
    }
    disk.strangers.push(b"lost+found".to_vec());
    let (outcome, sent) = disk.flush(&outbox, "none", 100);
    assert_eq!(sent.len(), 3);
    assert_eq!(
        outcome.unwrap_err().text(),
        "outbox accepted 3 event(s); unexpected outbox directory entry; retained for inspection; unexpected outbox directory entry; retained for inspection"
    );
    assert!(disk.slots.is_empty());
}

#[test]
fn slot_faults_come_from_the_file_system() {
    let outbox = outbox();
    let step = |load: SlotLoad, reply: SlotReply| outbox.load_slot(0, load, reply);
    let failed = |kind: OsKind| SlotReply::Files(Reply::Failed(failure(kind)));
    let meta = |meta: Meta| SlotReply::Files(Reply::Meta(meta));
    assert_eq!(step(SlotLoad::Inspect, failed(OsKind::NotFound)), SlotLoad::Done(Ok(None)));
    assert_eq!(
        step(SlotLoad::Inspect, failed(OsKind::Other)),
        SlotLoad::Done(Err(os(Action::InspectSlot)))
    );
    for bad in [
        Meta { is_dir: false, is_file: true, is_symlink: false, len: 0 },
        Meta { is_dir: true, is_file: false, is_symlink: true, len: 0 },
    ] {
        assert_eq!(
            step(SlotLoad::Inspect, meta(bad)),
            SlotLoad::Done(notice(Notice::SlotNotDirectory))
        );
    }
    assert_eq!(step(SlotLoad::Open, failed(OsKind::NotFound)), SlotLoad::Done(Ok(None)));
    assert_eq!(
        step(SlotLoad::Open, failed(OsKind::Other)),
        SlotLoad::Done(Err(os(Action::ReadSlot)))
    );
    let next = || SlotLoad::Next { committed: None, staged: None };
    assert_eq!(
        step(next(), failed(OsKind::Other)),
        SlotLoad::Done(Err(os(Action::Plain)))
    );
    let full = SlotLoad::Next { committed: Some(vec![1]), staged: Some(vec![2]) };
    assert_eq!(step(full, failed(OsKind::Other)), SlotLoad::Done(notice(Notice::FileQuota)));
    let read = || SlotLoad::ReadRecord { name: b"a.json".to_vec(), staged: None };
    let unread = || step(read(), SlotReply::Read(Err(os(Action::Plain))));
    assert_eq!(step(unread(), SlotReply::Exists(Some(false))), SlotLoad::Done(Ok(None)));
    for there in [Some(true), None] {
        assert_eq!(
            step(unread(), SlotReply::Exists(there)),
            SlotLoad::Done(Err(os(Action::Plain)))
        );
    }
    assert_eq!(step(next(), SlotReply::Exists(None)), next());
}

#[test]
fn stock_is_taken_in_the_order_of_the_slots() {
    let outbox = outbox();
    let mut disk = Disk::default();
    for content in ["a", "b", "c"] {
        enqueue(&mut disk, &outbox, content);
    }
    disk.slots.insert(9, BTreeMap::new());
    disk.strangers.push(b"slot-0064".to_vec());
    let found = disk.stock(&outbox).unwrap();
    let slots: Vec<usize> = found.records.iter().map(|stored| stored.slot).collect();
    assert_eq!(slots, vec![0, 1, 2]);
    let texts: Vec<String> = found.faults.iter().map(|fault| fault.text()).collect();
    assert_eq!(
        texts,
        vec![
            "unexpected outbox directory entry; retained for inspection",
            "/o/slot-0009: incomplete outbox slot; retained for manual recovery",
        ]
    );
}

#[test]
fn stock_has_a_quota() {
    let outbox = outbox();
    let mut disk = Disk::default();
    disk.strangers = vec![b"x".to_vec(); MAX_RECORDS];
    assert_eq!(disk.stock(&outbox).unwrap().faults.len(), MAX_RECORDS);
    disk.strangers.push(b"x".to_vec());
    assert_eq!(disk.stock(&outbox).map(|_| ()), notice(Notice::SlotQuota));
}

#[test]
fn stock_faults_come_from_the_file_system() {
    let failed = || InventoryReply::Files(Reply::Failed(failure(OsKind::Other)));
    let found = || Found { records: vec![], faults: vec![] };
    let done = |inventory: Inventory| match inventory {
        Inventory::Done(Err(fault)) => fault,
        other => panic!("{other:?}"),
    };
    assert_eq!(done(Outbox::inventory(Inventory::Require, failed())), os(Action::Plain));
    let link = Meta { is_symlink: true, ..DIRECTORY };
    assert_eq!(
        done(Outbox::inventory(Inventory::Require, InventoryReply::Files(Reply::Meta(link)))),
        Fault::Notice(Notice::NotRegularDirectory)
    );
    assert_eq!(done(Outbox::inventory(Inventory::Open, failed())), os(Action::ReadDirectory));
    let next = |count: usize| Inventory::Next { count, found: found() };
    assert_eq!(done(Outbox::inventory(next(63), failed())), os(Action::ReadSlot));
    assert_eq!(done(Outbox::inventory(next(64), failed())), Fault::Notice(Notice::SlotQuota));
}

#[test]
fn flush_delivers_and_removes() {
    let outbox = outbox();
    let mut disk = Disk::default();
    enqueue(&mut disk, &outbox, "a");
    disk.store(&outbox, outbox.store_deferred("t", "draft", "r"), None).unwrap();
    enqueue(&mut disk, &outbox, "b");
    let (outcome, sent) = disk.flush(&outbox, "none", 100);
    assert_eq!(outcome, Ok(2));
    assert_eq!(sent, vec!["a", "b"]);
    assert_eq!(disk.slots.keys().copied().collect::<Vec<usize>>(), vec![1]);
    assert_eq!(disk.flush(&outbox, "none", 100), (Ok(0), vec![]));
}

#[test]
fn refused_event_is_retained() {
    let outbox = outbox();
    let mut disk = Disk::default();
    let (event, _) = enqueue(&mut disk, &outbox, "a");
    enqueue(&mut disk, &outbox, "b");
    let (outcome, sent) = disk.flush(&outbox, "a", 100);
    assert_eq!(sent, vec!["a", "b"]);
    assert_eq!(
        outcome.unwrap_err().text(),
        format!(
            "outbox accepted 1 event(s); event {}: outbox HTTP 503 Service Unavailable; signed event retained for a later flush; outbox still has pending events",
            event.id
        )
    );
    assert_eq!(disk.slots.keys().copied().collect::<Vec<usize>>(), vec![0]);
}

#[test]
fn flush_has_a_batch_limit() {
    let outbox = outbox();
    let mut disk = Disk::default();
    for n in 0..MAX_BATCH + 2 {
        enqueue(&mut disk, &outbox, &format!("event {n}"));
    }
    let (outcome, sent) = disk.flush(&outbox, "none", 3);
    assert_eq!(sent.len(), 3);
    assert_eq!(
        outcome.unwrap_err().text(),
        "outbox accepted 3 event(s); outbox batch limit reached; pending records retained; outbox still has pending events"
    );
    for n in MAX_BATCH + 2..MAX_BATCH + 6 {
        enqueue(&mut disk, &outbox, &format!("event {n}"));
    }
    let (outcome, sent) = disk.flush(&outbox, "none", 100);
    assert_eq!(sent.len(), MAX_BATCH);
    assert_eq!(
        outcome.unwrap_err().text(),
        "outbox accepted 8 event(s); outbox batch limit reached; pending records retained; outbox still has pending events"
    );
    assert_eq!(disk.flush(&outbox, "none", 100).0, Ok(3));
}

#[test]
fn event_that_is_stored_twice_is_sent_once() {
    let outbox = outbox();
    let mut disk = Disk::default();
    let (event, placed) = enqueue(&mut disk, &outbox, "a");
    let copy = disk.slots[&placed.slot].clone();
    disk.slots.insert(40, copy.clone());
    let (outcome, sent) = disk.flush(&outbox, "none", 100);
    assert_eq!(outcome, Ok(1));
    assert_eq!(sent, vec!["a"]);
    assert!(disk.slots.is_empty());
    disk.slots.insert(5, copy.clone());
    disk.slots.insert(6, copy);
    assert_eq!(disk.flush_event(&outbox, &event.id), Ok(()));
    assert!(disk.slots.is_empty());
}

#[test]
fn flush_stops_where_it_cannot_go_on() {
    let flush = Outbox::flush().answered(FlushReply::Locked(false));
    assert_eq!(*flush.stage(), FlushStage::Done(notice(Notice::AlreadyFlushing)));
    let inventory = || Outbox::flush().answered(FlushReply::Locked(true));
    let flush = inventory().answered(FlushReply::Stock(Err(os(Action::ReadDirectory))));
    assert_eq!(*flush.stage(), FlushStage::Done(Err(os(Action::ReadDirectory))));
    let stored = || Stored {
        slot: 0,
        name: b"e.json".to_vec(),
        record: Record {
            version: 1,
            namespace: "n".to_string(),
            turn_id: "t".to_string(),
            payload: Payload::Pending { event: signed("x") },
        },
    };
    let found = || Found { records: vec![stored()], faults: vec![] };
    let sync = || {
        inventory().answered(FlushReply::Stock(Ok(found()))).answered(FlushReply::Late(false))
    };
    let failed = || FlushReply::Files(Reply::Failed(failure(OsKind::Other)));
    assert_eq!(*sync().stage(), FlushStage::SyncSlot { at: 0 });
    assert_eq!(
        *sync().answered(failed()).stage(),
        FlushStage::Done(Err(os(Action::SyncDirectory)))
    );
    let deliver = || sync().answered(FlushReply::Files(Reply::Done));
    let recheck = deliver().answered(FlushReply::TimedOut);
    assert_eq!(*recheck.stage(), FlushStage::Recheck);
    let done = recheck.answered(FlushReply::Stock(Ok(found())));
    match done.stage() {
        FlushStage::Done(Err(fault)) => assert_eq!(
            fault.text(),
            "outbox accepted 0 event(s); outbox batch timed out; pending records retained; outbox still has pending events"
        ),
        other => panic!("{other:?}"),
    }
    let removed = deliver()
        .answered(FlushReply::Delivered(Ok(())))
        .answered(FlushReply::Removed(Err(os(Action::RemoveFile))))
        .answered(FlushReply::Stock(Ok(Found { records: vec![], faults: vec![] })));
    match removed.stage() {
        FlushStage::Done(Err(fault)) => assert_eq!(
            fault.text(),
            "outbox accepted 1 event(s); remove acknowledged outbox file: refused"
        ),
        other => panic!("{other:?}"),
    }
    assert_eq!(sync().record(1), None);
}

#[test]
fn one_event_is_flushed_alone() {
    let outbox = outbox();
    let mut disk = Disk::default();
    enqueue(&mut disk, &outbox, "a");
    let (event, _) = enqueue(&mut disk, &outbox, "b");
    assert_eq!(disk.flush_event(&outbox, &event.id), Ok(()));
    assert_eq!(disk.slots.keys().copied().collect::<Vec<usize>>(), vec![0]);
    assert_eq!(
        disk.flush_event(&outbox, &event.id),
        Err("requested event is not a validated pending outbox record".to_string())
    );
    assert_eq!(disk.flush_event(&outbox, "xyz"), Err("invalid outbox event ID".to_string()));
    let start = || Outbox::flush_event(&event.id);
    assert_eq!(
        *start().answered(FlushReply::Locked(false)).stage(),
        EventStage::Done(notice(Notice::LockTimedOut))
    );
    let found = || Found { records: vec![stored_event(&event)], faults: vec![] };
    let sync =
        || start().answered(FlushReply::Locked(true)).answered(FlushReply::Stock(Ok(found())));
    assert_eq!(*sync().stage(), EventStage::SyncSlot { at: 0 });
    let failed = || FlushReply::Files(Reply::Failed(failure(OsKind::Other)));
    assert_eq!(
        *sync().answered(failed()).stage(),
        EventStage::Done(Err(os(Action::SyncDirectory)))
    );
    let deliver = || sync().answered(FlushReply::Files(Reply::Done));
    assert_eq!(
        *deliver().answered(FlushReply::TimedOut).stage(),
        EventStage::Done(notice(Notice::DeliveryTimedOut))
    );
    assert_eq!(
        *deliver().answered(FlushReply::Delivered(Err(os(Action::Transport)))).stage(),
        EventStage::Done(Err(os(Action::Transport)))
    );
    let remove = deliver().answered(FlushReply::Delivered(Ok(())));
    assert_eq!(*remove.stage(), EventStage::Remove { at: 0 });
    assert_eq!(
        *remove.answered(FlushReply::Removed(Err(os(Action::RemoveFile)))).stage(),
        EventStage::Done(Err(os(Action::RemoveFile)))
    );
}

fn stored_event(event: &Event) -> Stored {
    Stored {
        slot: 0,
        name: format!("{}.json", event.id).into_bytes(),
        record: Record {
            version: 1,
            namespace: "n".to_string(),
            turn_id: "t".to_string(),
            payload: Payload::Pending { event: event.clone() },
        },
    }
}

#[test]
fn removal_reports_what_failed() {
    let failed = || RemovalReply::Files(Reply::Failed(failure(OsKind::Other)));
    let unknown = || RemovalReply::Exists(Err(failure(OsKind::Other)));
    let stage = || Removal::RemoveStage { slot: 2, stage: b"e.stage".to_vec(), name: b"e.json".to_vec() };
    for (removal, reply, action) in [
        (stage(), failed(), Action::RemoveFile),
        (Removal::RemoveRecord { slot: 2, name: b"e.json".to_vec() }, failed(), Action::RemoveFile),
        (Removal::ProbeSlot { slot: 2 }, unknown(), Action::Plain),
        (Removal::SyncSlot { slot: 2 }, failed(), Action::SyncDirectory),
        (Removal::RemoveSlot { slot: 2 }, failed(), Action::RemoveSlot),
        (Removal::SyncOutbox, failed(), Action::SyncDirectory),
    ] {
        assert_eq!(removal.answered(reply), Removal::Done(Err(os(action))));
    }
    let gone = || RemovalReply::Files(Reply::Failed(failure(OsKind::NotFound)));
    assert_eq!(
        stage().answered(gone()),
        Removal::RemoveRecord { slot: 2, name: b"e.json".to_vec() }
    );
    assert_eq!(Removal::RemoveSlot { slot: 2 }.answered(gone()), Removal::SyncOutbox);
    assert_eq!(
        Removal::ProbeSlot { slot: 2 }.answered(RemovalReply::Exists(Ok(false))),
        Removal::SyncOutbox
    );
    assert_eq!(remove_if_present(Err(failure(OsKind::NotFound))), Ok(()));
    assert_eq!(remove_if_present(Err(failure(OsKind::Other))), Err(os(Action::RemoveFile)));
}

#[test]
fn removal_takes_the_files_of_its_record_alone() {
    let outbox = outbox();
    let mut disk = Disk::default();
    let (_, first) = enqueue(&mut disk, &outbox, "a");
    let (_, second) = enqueue(&mut disk, &outbox, "b");
    let stored = disk.load(&outbox, first.slot).unwrap().unwrap();
    assert_eq!(
        Outbox::remove_accepted(&stored),
        Removal::RemoveStage {
            slot: 0,
            stage: stage_name(first.name.as_bytes()),
            name: first.name.clone().into_bytes(),
        }
    );
    let other = disk.slots[&second.slot].clone();
    assert_eq!(disk.remove(&stored), Ok(()));
    assert_eq!(disk.slots, BTreeMap::from([(second.slot, other)]));
    assert_eq!(disk.remove(&stored), Ok(()));
    let stored = disk.load(&outbox, second.slot).unwrap().unwrap();
    let files = disk.slots.get_mut(&second.slot).unwrap();
    files.insert(b"notes.txt".to_vec(), b"kept".to_vec());
    assert_eq!(disk.remove(&stored), Err(os(Action::RemoveSlot)));
    assert_eq!(
        disk.slots[&second.slot],
        BTreeMap::from([(b"notes.txt".to_vec(), b"kept".to_vec())])
    );
}

#[test]
fn private_directory_is_made_step_by_step() {
    let step = create_private_directory;
    let failed = || Reply::Failed(failure(OsKind::Other));
    let made = step(Making::Create, true, Reply::Done);
    assert_eq!(made, Making::Require);
    let made = step(made, true, Reply::Meta(DIRECTORY));
    assert_eq!(made, Making::Sync);
    let made = step(made, true, Reply::Done);
    assert_eq!(made, Making::SyncParent);
    assert_eq!(step(made, true, Reply::Done), Making::Done(Ok(())));
    assert_eq!(step(Making::Sync, false, Reply::Done), Making::Done(Ok(())));
    for (making, action) in [
        (Making::Create, Action::CreateDirectory),
        (Making::Require, Action::Plain),
        (Making::Sync, Action::SyncDirectory),
        (Making::SyncParent, Action::SyncDirectory),
    ] {
        assert_eq!(step(making, true, failed()), Making::Done(Err(os(action))));
    }
    let file = Meta { is_dir: false, is_file: true, is_symlink: false, len: 1 };
    assert_eq!(
        step(Making::Require, true, Reply::Meta(file)),
        Making::Done(notice(Notice::NotRegularDirectory))
    );
    let link = Meta { is_dir: false, is_file: false, is_symlink: true, len: 1 };
    assert_eq!(
        step(step(Making::Create, true, Reply::Done), true, Reply::Meta(link)),
        Making::Done(notice(Notice::NotRegularDirectory))
    );
    assert_eq!(require_directory(Ok(DIRECTORY)), Ok(()));
    assert_eq!(require_directory(Err(failure(OsKind::NotFound))), Err(os(Action::Plain)));
    assert_eq!(sync_directory(Ok(())), Ok(()));
}

#[test]
fn files_are_read_up_to_the_limit() {
    let file = |len: u64| Reply::Meta(Meta { is_dir: false, is_file: true, is_symlink: false, len });
    let limit = MAX_RECORD_BYTES as u64;
    assert_eq!(read_bounded(Reading::Inspect, file(limit)), Reading::Contents);
    assert_eq!(
        read_bounded(Reading::Inspect, file(limit + 1)),
        Reading::Done(notice(Notice::RecordTooLong))
    );
    assert_eq!(
        read_bounded(Reading::Inspect, Reply::Meta(DIRECTORY)),
        Reading::Done(notice(Notice::NotRegularFile))
    );
    assert_eq!(
        read_bounded(Reading::Contents, Reply::Bytes(vec![0; MAX_RECORD_BYTES + 1])),
        Reading::Done(notice(Notice::RecordTooLong))
    );
    assert_eq!(
        read_bounded(Reading::Contents, Reply::Failed(failure(OsKind::Other))),
        Reading::Done(Err(os(Action::Plain)))
    );
}

#[test]
fn buffer_takes_pieces_whole_or_not_at_all() {
    let mut buffer = BoundedBuffer::new();
    assert_eq!(buffer.write(b"ab"), Ok(2));
    assert_eq!(buffer.write(&vec![b'x'; MAX_RECORD_BYTES - 1]), notice(Notice::RecordTooLong));
    assert_eq!(buffer.write(&vec![b'x'; MAX_RECORD_BYTES - 2]), Ok(MAX_RECORD_BYTES - 2));
    assert_eq!(buffer.write(b""), Ok(0));
    assert_eq!(buffer.write(b"c"), notice(Notice::RecordTooLong));
    let bytes = buffer.into_bytes();
    assert_eq!(bytes.len(), MAX_RECORD_BYTES);
    assert_eq!(&bytes[..3], b"abx");
}
