use fuse_access_monitor::attr::{FileKind, TTL_SECONDS};
use fuse_access_monitor::event::{Event, EventType, ReadEvent, Timestamp};
use fuse_access_monitor::handler::{finish_read, DirItem, Errno, ReadReply, ReadStep, MAX_READ};
use fuse_access_monitor::scan::{SourceKind, SourceNode};
use fuse_access_monitor::session::{
    mount_finished, mount_pressed, unmount_pressed, Command, Outcome, Problem, Status,
};
use fuse_access_monitor::tree::Directory;
use std::sync::Arc;

fn mounted() -> Directory {
    let listing = vec![
        SourceNode {
            name: "a.txt".to_string(),
            full_path: "/src/a.txt".to_string(),
            kind: SourceKind::File(4),
        },
        SourceNode {
            name: "sub".to_string(),
            full_path: "/src/sub".to_string(),
            kind: SourceKind::Directory(vec![SourceNode {
                name: "b.txt".to_string(),
                full_path: "/src/sub/b.txt".to_string(),
                kind: SourceKind::File(0),
            }]),
        },
    ];
    Directory::new("/src", &listing)
}

fn item(ino: u64, next_offset: i64, kind: FileKind, name: &str) -> DirItem {
    DirItem { ino, next_offset, kind, name: name.to_string() }
}

fn full_listing() -> Vec<DirItem> {
    vec![
        item(1, 1, FileKind::Directory, "."),
        item(1, 2, FileKind::Directory, ".."),
        item(2, 3, FileKind::RegularFile, "a.txt"),
        item(4, 4, FileKind::Directory, "sub"),
    ]
}

fn shared(name: &str) -> Arc<String> {
    Arc::new(name.to_string())
}

fn read_event(secs: i64, file: &str, offset: usize, size: usize) -> Event {
    Event {
        time: Timestamp { secs, nanos: 7 },
        event: EventType::Read(ReadEvent { file: shared(file), offset, size }),
    }
}

#[test]
fn lookup_resolves_a_name_under_its_parent() {
    let tree = mounted();
    let attr = tree.lookup(1, "a.txt").unwrap();
    assert_eq!(attr.ino, 2);
    assert_eq!(attr.size, 4);
    assert_eq!(attr.kind, FileKind::RegularFile);
    assert_eq!(tree.lookup(1, "A.TXT"), Ok(attr));
    assert_eq!(tree.lookup(4, "B.txt").unwrap().ino, 3);
    assert_eq!(tree.lookup(1, "sub").unwrap().kind, FileKind::Directory);
}

#[test]
fn lookup_fails_with_no_entry() {
    let tree = mounted();
    assert_eq!(tree.lookup(1, "b.txt"), Err(Errno::NoEntry));
    assert_eq!(tree.lookup(2, "a.txt"), Err(Errno::NoEntry));
    assert_eq!(tree.lookup(9, "a.txt"), Err(Errno::NoEntry));
}

#[test]
fn getattr_twice_gives_the_same_attributes() {
    let tree = mounted();
    for ino in 1..=4u64 {
        let first = tree.getattr(ino);
        let second = tree.getattr(ino);
        assert!(first.is_ok());
        assert_eq!(first, second);
        assert_eq!(first.unwrap().ino, ino);
    }
    assert_eq!(tree.getattr(5), Err(Errno::NoEntry));
    assert_eq!(TTL_SECONDS, 1);
}

#[test]
fn read_of_a_backing_file_is_handed_out_and_finished() {
    let tree = mounted();
    let time = Timestamp { secs: 100, nanos: 7 };
    let step = tree.begin_read_at(2, 0, 2, time);
    assert_eq!(
        step,
        ReadStep::FromFile {
            path: "/src/a.txt".to_string(),
            name: shared("a.txt"),
            offset: 0,
            size: 2,
            length: 2,
            time,
        }
    );
    let reply = finish_read(shared("a.txt"), 0, 2, time, Ok(b"ab".to_vec()));
    assert_eq!(
        reply,
        ReadReply { data: Ok(b"ab".to_vec()), event: Some(read_event(100, "a.txt", 0, 2)) }
    );
}

#[test]
fn short_read_keeps_the_requested_length_in_the_event() {
    let time = Timestamp { secs: 101, nanos: 7 };
    let reply = finish_read(shared("a.txt"), 2, 10, time, Ok(b"cd".to_vec()));
    assert_eq!(
        reply,
        ReadReply { data: Ok(b"cd".to_vec()), event: Some(read_event(101, "a.txt", 2, 10)) }
    );
}

#[test]
fn read_past_the_end_gives_no_bytes_and_one_event() {
    let time = Timestamp { secs: 102, nanos: 7 };
    let reply = finish_read(shared("a.txt"), 4, 16, time, Ok(Vec::new()));
    assert_eq!(
        reply,
        ReadReply { data: Ok(Vec::new()), event: Some(read_event(102, "a.txt", 4, 16)) }
    );
    let mut tree = mounted();
    let created = tree.create(1, "new").unwrap();
    let step = tree.begin_read_at(created.ino, 3, 8, time);
    assert_eq!(
        step,
        ReadStep::Done(ReadReply {
            data: Ok(Vec::new()),
            event: Some(read_event(102, "new", 3, 8)),
        })
    );
}

#[test]
fn read_is_cut_at_the_ceiling() {
    let tree = mounted();
    let time = Timestamp { secs: 103, nanos: 7 };
    assert_eq!(MAX_READ, 1024 * 1024);
    match tree.begin_read_at(2, 0, u32::MAX, time) {
        ReadStep::FromFile { length, size, .. } => {
            assert_eq!(length, MAX_READ);
            assert_eq!(size, u32::MAX);
        }
        ReadStep::Done(_) => panic!("a backing file is read outside"),
    }
    let reply = finish_read(shared("big"), 0, u32::MAX, time, Ok(vec![5u8; MAX_READ + 10]));
    assert_eq!(reply.data.unwrap().len(), MAX_READ);
    assert_eq!(reply.event, Some(read_event(103, "big", 0, u32::MAX as usize)));
    let reply = finish_read(shared("big"), 0, 3, time, Ok(vec![1, 2, 3, 4, 5]));
    assert_eq!(reply.data, Ok(vec![1, 2, 3]));
}

#[test]
fn failed_read_is_an_io_error_without_event() {
    let time = Timestamp { secs: 104, nanos: 7 };
    let reply = finish_read(shared("a.txt"), 0, 2, time, Err(()));
    assert_eq!(reply, ReadReply { data: Err(Errno::Io), event: None });
}

#[test]
fn read_of_an_absent_inode_is_no_entry() {
    let tree = mounted();
    let time = Timestamp { secs: 105, nanos: 7 };
    assert_eq!(
        tree.begin_read_at(42, 0, 2, time),
        ReadStep::Done(ReadReply { data: Err(Errno::NoEntry), event: None })
    );
    assert_eq!(
        tree.begin_read(42, 0, 2),
        ReadStep::Done(ReadReply { data: Err(Errno::NoEntry), event: None })
    );
}

#[test]
fn read_now_takes_the_time_from_the_clock() {
    let tree = mounted();
    match tree.begin_read(2, 1, 3) {
        ReadStep::FromFile { path, name, offset, size, length, time } => {
            assert_eq!(path, "/src/a.txt");
            assert_eq!(name.as_str(), "a.txt");
            assert!(Arc::ptr_eq(&name, &tree.root().find_ino(2).unwrap().name));
            assert_eq!((offset, size, length), (1, 3, 3));
            assert!(time.secs > 1_600_000_000);
            assert!(time.nanos < 2_000_000_000);
        }
        ReadStep::Done(_) => panic!("a backing file is read outside"),
    }
    let event = Event::read_now(shared("f"), 1, 2);
    assert!(event.time.secs > 1_600_000_000);
    assert_eq!(event.event, EventType::Read(ReadEvent { file: shared("f"), offset: 1, size: 2 }));
}

#[test]
fn event_records_what_was_asked_for() {
    let time = Timestamp { secs: 1, nanos: 2 };
    let event = Event::read_at(time, shared("x.bin"), 7, 9);
    assert_eq!(
        event,
        Event {
            time,
            event: EventType::Read(ReadEvent { file: shared("x.bin"), offset: 7, size: 9 }),
        }
    );
}

#[test]
fn readdir_lists_self_parent_and_children_in_order() {
    let tree = mounted();
    assert_eq!(tree.readdir(1, 0), Ok(full_listing()));
    assert_eq!(
        tree.readdir(4, 0),
        Ok(vec![
            item(1, 1, FileKind::Directory, "."),
            item(1, 2, FileKind::Directory, ".."),
            item(3, 3, FileKind::RegularFile, "b.txt"),
        ])
    );
}

#[test]
fn readdir_resumed_gives_the_suffix() {
    let tree = mounted();
    let full = full_listing();
    for k in 0..=full.len() {
        assert_eq!(tree.readdir(1, k as i64), Ok(full[k..].to_vec()));
    }
    assert_eq!(tree.readdir(1, 5), Ok(Vec::new()));
    assert_eq!(tree.readdir(1, i64::MAX), Ok(Vec::new()));
    assert_eq!(tree.readdir(1, -1), Ok(Vec::new()));
}

#[test]
fn readdir_of_a_file_or_nothing_is_no_entry() {
    let tree = mounted();
    assert_eq!(tree.readdir(2, 0), Err(Errno::NoEntry));
    assert_eq!(tree.readdir(9, 0), Err(Errno::NoEntry));
}

#[test]
fn create_adds_one_child_under_a_fresh_inode() {
    let mut tree = mounted();
    let before = tree.readdir(1, 0).unwrap();
    assert_eq!(tree.getattr(5), Err(Errno::NoEntry));
    let attr = tree.create(1, "c.txt").unwrap();
    assert_eq!(attr.ino, 5);
    assert_eq!(attr.size, 0);
    assert_eq!(attr.kind, FileKind::RegularFile);
    assert_eq!(tree.getattr(5), Ok(attr));
    assert_eq!(tree.lookup(1, "C.TXT"), Ok(attr));
    let after = tree.readdir(1, 0).unwrap();
    assert_eq!(after.len(), before.len() + 1);
    assert_eq!(after[..before.len()], before[..]);
    assert_eq!(after[before.len()], item(5, 5, FileKind::RegularFile, "c.txt"));
    assert_eq!(tree.create(4, "d.txt").unwrap().ino, 6);
}

#[test]
fn create_under_a_file_fails_and_changes_nothing() {
    let mut tree = mounted();
    assert_eq!(tree.create(2, "c.txt"), Err(Errno::NoEntry));
    assert_eq!(tree.create(99, "c.txt"), Err(Errno::NoEntry));
    assert_eq!(tree, mounted());
}

#[test]
fn write_is_accepted_and_discarded() {
    let mut tree = mounted();
    let created = tree.create(1, "w").unwrap();
    let before = tree.getattr(created.ino);
    assert_eq!(tree.write(created.ino, 0, b"hello"), 5);
    assert_eq!(tree.write(2, 1, b"xyz"), 3);
    assert_eq!(tree.write(77, 0, b""), 0);
    assert_eq!(tree.getattr(created.ino), before);
    assert_eq!(tree.getattr(2).unwrap().size, 4);
    let time = Timestamp { secs: 1, nanos: 7 };
    match tree.begin_read_at(created.ino, 0, 5, time) {
        ReadStep::Done(reply) => assert_eq!(reply.data, Ok(Vec::new())),
        ReadStep::FromFile { .. } => panic!("a created file is held in memory"),
    }
}

#[test]
fn release_always_succeeds() {
    let tree = mounted();
    assert_eq!(tree.release(2), Ok(()));
    assert_eq!(tree.release(1234), Ok(()));
}

#[test]
fn mount_needs_two_directories() {
    assert_eq!(
        mount_pressed(Status::Unmounted, true, true),
        Outcome { status: Status::Mounting, command: Command::Mount, problem: None }
    );
    assert_eq!(
        mount_pressed(Status::Unmounted, true, false),
        Outcome {
            status: Status::Unmounted,
            command: Command::Nothing,
            problem: Some(Problem::MountpointNotDirectory),
        }
    );
    for mountpoint_valid in [true, false] {
        assert_eq!(
            mount_pressed(Status::Unmounted, false, mountpoint_valid),
            Outcome {
                status: Status::Unmounted,
                command: Command::Nothing,
                problem: Some(Problem::SourceNotDirectory),
            }
        );
    }
    assert_eq!(mount_finished(true), Status::Mounted);
    assert_eq!(mount_finished(false), Status::Unmounted);
    assert_eq!(Problem::SourceNotDirectory.text(), "Source is not a directory.");
    assert_eq!(Problem::MountpointNotDirectory.text(), "Mountpoint is not a directory.");
}

#[test]
fn unmount_joins_only_a_mounted_session() {
    assert_eq!(
        unmount_pressed(Status::Mounted),
        Outcome { status: Status::Unmounted, command: Command::Join, problem: None }
    );
    for status in [Status::Unmounted, Status::Mounting, Status::Unmounting] {
        assert_eq!(
            unmount_pressed(status),
            Outcome {
                status: Status::Unmounted,
                command: Command::Nothing,
                problem: Some(Problem::NothingMounted),
            }
        );
    }
    assert_eq!(
        Problem::NothingMounted.text(),
        "Somehow unmount was pressed, even though nothing was mounted...? Oh well."
    );
}

fn serve(tree: &Directory, content: &[u8], ino: u64, offset: usize, size: u32) -> ReadReply {
    let time = Timestamp { secs: 9, nanos: 7 };
    match tree.begin_read_at(ino, offset, size, time) {
        ReadStep::Done(reply) => reply,
        ReadStep::FromFile { name, offset, size, length, time, .. } => {
            let start = offset.min(content.len());
            let end = offset.saturating_add(length).min(content.len());
            finish_read(name, offset, size, time, Ok(content[start..end].to_vec()))
        }
    }
}

#[test]
fn mounted_directory_scenario() {
    let tree = mounted();
    let a = tree.lookup(1, "a.txt").unwrap();
    assert_eq!(a.size, 4);
    let sub = tree.lookup(1, "sub").unwrap();
    assert_eq!(
        serve(&tree, b"abcd", a.ino, 0, 2),
        ReadReply { data: Ok(b"ab".to_vec()), event: Some(read_event(9, "a.txt", 0, 2)) }
    );
    assert_eq!(
        serve(&tree, b"abcd", a.ino, 2, 10),
        ReadReply { data: Ok(b"cd".to_vec()), event: Some(read_event(9, "a.txt", 2, 10)) }
    );
    assert_eq!(
        serve(&tree, b"abcd", a.ino, 4, 10),
        ReadReply { data: Ok(Vec::new()), event: Some(read_event(9, "a.txt", 4, 10)) }
    );
    assert_eq!(
        tree.readdir(1, 0),
        Ok(vec![
            item(1, 1, FileKind::Directory, "."),
            item(1, 2, FileKind::Directory, ".."),
            item(a.ino, 3, FileKind::RegularFile, "a.txt"),
            item(sub.ino, 4, FileKind::Directory, "sub"),
        ])
    );
}
