use async_inotify::events::{DirectoryWatchEvent, FileWatchEvent};
use async_inotify::flags::{EventFilter, EventFlag, EventMask, InterestFlag, Interests};

const ALL_FLAGS: [EventFlag; 12] = [
    EventFlag::Access,
    EventFlag::Write,
    EventFlag::Metadata,
    EventFlag::CloseWrite,
    EventFlag::CloseNoWrite,
    EventFlag::Open,
    EventFlag::MoveSource,
    EventFlag::MoveDestination,
    EventFlag::Create,
    EventFlag::Delete,
    EventFlag::DeleteSelf,
    EventFlag::MoveSelf,
];

#[test]
fn event_flag_bits_are_kernel_values() {
    assert_eq!(EventFlag::Access.bits(), 0x1);
    assert_eq!(EventFlag::Write.bits(), 0x2);
    assert_eq!(EventFlag::CloseWrite.bits(), 0x8);
    assert_eq!(EventFlag::Open.bits(), 0x20);
    assert_eq!(EventFlag::Create.bits(), 0x100);
    assert_eq!(EventFlag::MoveSelf.bits(), 0x800);
    assert_eq!(InterestFlag::DirOnly.bits(), 0x0100_0000);
    assert_eq!(InterestFlag::NoFollow.bits(), 0x0200_0000);
    assert_eq!(InterestFlag::NoUnlink.bits(), 0x0400_0000);
}

#[test]
fn composed_mask_intersects_each_constituent_only() {
    let mask = EventFlag::Write | EventFlag::Open | EventFlag::Create;
    for flag in ALL_FLAGS {
        let hit = (mask & flag).bits() != 0;
        let member = matches!(flag, EventFlag::Write | EventFlag::Open | EventFlag::Create);
        assert_eq!(hit, member, "{flag:?}");
        assert_eq!(mask.intersects(EventMask::from(flag)), member);
    }
    assert_eq!(mask.bits(), 0x122);
}

#[test]
fn masks_compose_with_masks_and_flags() {
    let a = EventFlag::Write | EventFlag::CloseWrite;
    let b = a | EventFlag::Delete;
    assert_eq!(b.bits(), 0x20a);
    assert_eq!((b | EventMask::moves()).bits(), 0x2ca);
    assert_eq!((b & EventMask::close()).bits(), 0x8);
    assert_eq!((EventFlag::Write & EventFlag::Open).bits(), 0);
    assert_eq!(EventMask::any().bits(), 0xfff);
}

#[test]
fn filters_carry_interests() {
    let interests: Interests = InterestFlag::NoFollow | InterestFlag::DirOnly;
    assert_eq!(interests.bits(), 0x0300_0000);
    let filter = EventMask::from(EventFlag::Write).with_interests(interests);
    assert_eq!(filter.bits(), 0x0300_0002);
    let more = filter.filter(InterestFlag::NoUnlink);
    assert_eq!(more.bits(), 0x0700_0002);
    let single = EventMask::from(EventFlag::Open).filter(InterestFlag::DirOnly);
    assert_eq!(single.bits(), 0x0100_0020);
    assert_eq!(EventFilter::from(EventMask::close()).bits(), 0x18);
}

#[test]
fn masks_decode_to_events() {
    assert_eq!(FileWatchEvent::from_mask(0x1), Ok(FileWatchEvent::Read));
    assert_eq!(FileWatchEvent::from_mask(0x2), Ok(FileWatchEvent::Write));
    assert_eq!(FileWatchEvent::from_mask(0x20), Ok(FileWatchEvent::Open));
    assert_eq!(
        FileWatchEvent::from_mask(0x8),
        Ok(FileWatchEvent::Close { writable: true })
    );
    assert_eq!(
        FileWatchEvent::from_mask(0x10),
        Ok(FileWatchEvent::Close { writable: false })
    );
    assert_eq!(FileWatchEvent::from_mask(0x4), Err(0x4));
    assert_eq!(FileWatchEvent::from_mask(0x4000_0020), Err(0x4000_0020));
    assert_eq!(FileWatchEvent::from_mask(0x3), Err(0x3));
}

#[test]
fn events_describe_themselves() {
    assert_eq!(FileWatchEvent::Read.describe(), "read");
    assert_eq!(FileWatchEvent::Write.describe(), "written");
    assert_eq!(FileWatchEvent::Open.describe(), "opened");
    assert_eq!(
        FileWatchEvent::Close { writable: true }.describe(),
        "closed for writing"
    );
    assert_eq!(
        FileWatchEvent::Close { writable: false }.describe(),
        "closed for reading"
    );
    let named = DirectoryWatchEvent {
        inner_path: Some("notes.txt".to_string()),
        event: FileWatchEvent::Write,
    };
    assert_eq!(named.describe(), "notes.txt was written");
    let plain = DirectoryWatchEvent {
        inner_path: None,
        event: FileWatchEvent::Open,
    };
    assert_eq!(plain.describe(), "a file was opened");
    assert_eq!(named.duplicate(), named);
}
