use nix::fcntl::OFlag;
use nix::sys::mman::{shm_open, shm_unlink};
use nix::sys::stat::Mode;
use nix::sys::uio::{pread, pwrite};
use nix::unistd::ftruncate;
use uuid::Uuid;
use zoosync::posix::{
    Backing, MapRequest, OpenFlags, Protection, SysReply, Syscall, EEXIST, ENOENT,
};
use zoosync::setup::{Outcome, Progress, SegmentSetup};
use zoosync::path::NulError;
use zoosync::zooparallel_core::shm::{shm_path, ShmError, ShmSegment};
use zoosync::zoosync_core;

fn temp_name() -> String {
    format!("/test_{}", &Uuid::new_v4().simple().to_string()[..8])
}

/// Performs the calls of a setup until it ends.
fn drive(setup: SegmentSetup, kernel: &mut dyn FnMut(Syscall) -> SysReply) -> Outcome {
    let mut setup = setup;
    loop {
        let reply = kernel(setup.syscall());
        assert!(setup.accepts(reply));
        match setup.advance(reply) {
            Progress::Pending(next) => setup = next,
            Progress::Finished(outcome) => return outcome,
        }
    }
}

fn open_flags(flags: OpenFlags) -> OFlag {
    let mut bits = OFlag::empty();
    if flags.read_write {
        bits |= OFlag::O_RDWR;
    }
    if flags.create {
        bits |= OFlag::O_CREAT;
    }
    if flags.exclusive {
        bits |= OFlag::O_EXCL;
    }
    bits
}

/// The address ranges of a process, as the calls left them.
struct AddressTable {
    maps: Vec<(usize, MapRequest)>,
}

impl AddressTable {
    fn map(&mut self, request: MapRequest) -> usize {
        let address = request.address.unwrap_or(0x10_0000);
        self.maps.push((address, request));
        address
    }

    /// The offset in the object that an address refers to. The latest map counts.
    fn offset(&self, address: usize) -> i64 {
        for (start, request) in self.maps.iter().rev() {
            if *start <= address && address < start + request.length {
                match request.backing {
                    Backing::Object { offset } => {
                        assert_eq!(request.protection, Protection::ReadWrite);
                        return (offset + (address - start)) as i64;
                    }
                    Backing::Private => panic!("address is reserved only"),
                }
            }
        }
        panic!("address is not mapped")
    }
}

fn failed(e: nix::Error) -> SysReply {
    SysReply::Failed { errno: e as i32 }
}

fn unlink(name: &str) {
    match ShmSegment::unlink(name).expect("Failed to unlink") {
        Syscall::ShmUnlink { path } => shm_unlink(path.as_str()).expect("Failed to unlink"),
        _ => panic!("not an unlink call"),
    }
}

#[test]
fn test_create_and_open() {
    let name = temp_name();
    let size = 16384;

    {
        let mut table = AddressTable { maps: vec![] };
        let mut object = None;
        let setup = ShmSegment::create(&name, size).expect("Failed to create shm");
        let outcome = drive(setup, &mut |call| match call {
            Syscall::ShmOpen { path, flags, mode } => {
                match shm_open(path.as_str(), open_flags(flags), Mode::from_bits_truncate(mode)) {
                    Ok(fd) => {
                        object = Some(fd);
                        SysReply::Done
                    }
                    Err(e) => failed(e),
                }
            }
            Syscall::Truncate { length } => {
                match ftruncate(object.as_ref().unwrap(), length as i64) {
                    Ok(()) => SysReply::Done,
                    Err(e) => failed(e),
                }
            }
            Syscall::Mmap(request) => SysReply::Mapped { address: table.map(request) },
            _ => panic!("unexpected call"),
        });
        let shm = ShmSegment::finish(outcome).expect("Failed to create shm");
        assert_eq!(shm.size, size);
        let value: u64 = 0xDEADBEEF;
        let fd = object.unwrap();
        assert_eq!(pwrite(&fd, &value.to_ne_bytes(), table.offset(shm.ptr)), Ok(8));
    }

    {
        let mut table = AddressTable { maps: vec![] };
        let mut object = None;
        let setup = ShmSegment::open(&name, size).expect("Failed to open shm");
        let outcome = drive(setup, &mut |call| match call {
            Syscall::ShmOpen { path, flags, mode } => {
                match shm_open(path.as_str(), open_flags(flags), Mode::from_bits_truncate(mode)) {
                    Ok(fd) => {
                        object = Some(fd);
                        SysReply::Done
                    }
                    Err(e) => failed(e),
                }
            }
            Syscall::Mmap(request) => SysReply::Mapped { address: table.map(request) },
            _ => panic!("unexpected call"),
        });
        let shm = ShmSegment::finish(outcome).expect("Failed to open shm");
        let mut bytes = [0u8; 8];
        let fd = object.unwrap();
        assert_eq!(pread(&fd, &mut bytes, table.offset(shm.ptr)), Ok(8));
        let val = u64::from_ne_bytes(bytes);
        assert_eq!(val, 0xDEADBEEF);
    }

    unlink(&name);
}

#[test]
fn test_mirrored_mapping() {
    let name = temp_name();
    let header_size = 16384;
    let data_size = 16384;

    let mut table = AddressTable { maps: vec![] };
    let mut object = None;
    let setup = ShmSegment::create_mirrored(&name, header_size, data_size, 4096)
        .expect("Failed to create mirrored shm");
    let outcome = drive(setup, &mut |call| match call {
        Syscall::ShmOpen { path, flags, mode } => {
            match shm_open(path.as_str(), open_flags(flags), Mode::from_bits_truncate(mode)) {
                Ok(fd) => {
                    object = Some(fd);
                    SysReply::Done
                }
                Err(e) => failed(e),
            }
        }
        Syscall::Truncate { length } => match ftruncate(object.as_ref().unwrap(), length as i64) {
            Ok(()) => SysReply::Done,
            Err(e) => failed(e),
        },
        Syscall::Mmap(request) => SysReply::Mapped { address: table.map(request) },
        _ => panic!("unexpected call"),
    });
    let shm = ShmSegment::finish(outcome).expect("Failed to create mirrored shm");
    let fd = object.unwrap();

    let base = shm.ptr;
    let data_start = base + header_size;
    let mirror_start = base + header_size + data_size;

    let mut byte = [0u8; 1];
    assert_eq!(pwrite(&fd, &[42], table.offset(data_start)), Ok(1));
    assert_eq!(pread(&fd, &mut byte, table.offset(mirror_start)), Ok(1));
    assert_eq!(byte[0], 42, "Mirror did not reflect write to original");

    assert_eq!(pwrite(&fd, &[100], table.offset(mirror_start)), Ok(1));
    assert_eq!(pread(&fd, &mut byte, table.offset(data_start)), Ok(1));
    assert_eq!(byte[0], 100, "Original did not reflect write to mirror");

    unlink(&name);
}

/// Lists the calls of a setup, with these replies.
fn calls(setup: SegmentSetup, replies: &[SysReply]) -> (Vec<Syscall>, Option<Outcome>) {
    let mut setup = setup;
    let mut seen = vec![];
    for reply in replies {
        seen.push(setup.syscall());
        assert!(setup.accepts(*reply));
        match setup.advance(*reply) {
            Progress::Pending(next) => setup = next,
            Progress::Finished(outcome) => return (seen, Some(outcome)),
        }
    }
    (seen, None)
}

fn mapped(address: usize) -> SysReply {
    SysReply::Mapped { address }
}

#[test]
fn creating_twice_is_refused() {
    let name = temp_name();
    let mut errno = vec![];
    for _ in 0..2 {
        let mut object = None;
        let setup = ShmSegment::create(&name, 4096).unwrap();
        let outcome = drive(setup, &mut |call| match call {
            Syscall::ShmOpen { path, flags, mode } => {
                match shm_open(path.as_str(), open_flags(flags), Mode::from_bits_truncate(mode)) {
                    Ok(fd) => {
                        object = Some(fd);
                        SysReply::Done
                    }
                    Err(e) => failed(e),
                }
            }
            Syscall::Truncate { length } => {
                match ftruncate(object.as_ref().unwrap(), length as i64) {
                    Ok(()) => SysReply::Done,
                    Err(e) => failed(e),
                }
            }
            Syscall::Mmap(_) => mapped(0x10_0000),
            _ => panic!("unexpected call"),
        });
        errno.push(ShmSegment::finish(outcome).err());
    }
    unlink(&name);
    assert_eq!(errno, vec![None, Some(ShmError::Nix(libc::EEXIST))]);
}

#[test]
fn opening_what_is_not_there_is_refused() {
    let name = temp_name();
    let setup = zoosync_core::shm::ShmSegment::open(&name, 4096).unwrap();
    let outcome = drive(setup, &mut |call| match call {
        Syscall::ShmOpen { path, flags, mode } => {
            match shm_open(path.as_str(), open_flags(flags), Mode::from_bits_truncate(mode)) {
                Ok(_) => SysReply::Done,
                Err(e) => failed(e),
            }
        }
        _ => panic!("unexpected call"),
    });
    let error = zoosync_core::shm::ShmSegment::finish(outcome).unwrap_err();
    assert_eq!(error, zoosync_core::shm::ShmError::Nix(libc::ENOENT));
    assert_eq!(error.message(), "Nix error: ENOENT: No such file or directory");
}

#[test]
fn a_mirrored_setup_makes_these_calls() {
    let setup = ShmSegment::create_mirrored("q", 4096, 8192, 4096).unwrap();
    let base = 0x7000_0000;
    let replies = [
        SysReply::Done,
        SysReply::Done,
        mapped(base),
        mapped(base),
        mapped(base + 4096),
        mapped(base + 12288),
    ];
    let (seen, outcome) = calls(setup, &replies);
    assert_eq!(outcome, Some(Outcome::Mapped { ptr: base, size: 20480 }));
    assert!(matches!(
        &seen[0],
        Syscall::ShmOpen {
            path,
            flags: OpenFlags { read_write: true, create: true, exclusive: true },
            mode: 0o600,
        } if path == "/q"
    ));
    assert!(matches!(seen[1], Syscall::Truncate { length: 12288 }));
    let requests: Vec<MapRequest> = seen[2..]
        .iter()
        .map(|call| match call {
            Syscall::Mmap(request) => *request,
            _ => panic!("not a map call"),
        })
        .collect();
    let shared = |address: usize, length: usize, offset: usize| MapRequest {
        address: Some(address),
        length,
        protection: Protection::ReadWrite,
        backing: Backing::Object { offset },
    };
    assert_eq!(
        requests,
        vec![
            MapRequest {
                address: None,
                length: 20480,
                protection: Protection::NoAccess,
                backing: Backing::Private,
            },
            shared(base, 4096, 0),
            shared(base + 4096, 8192, 4096),
            shared(base + 12288, 8192, 4096),
        ]
    );
}

#[test]
fn opening_neither_creates_nor_truncates() {
    let setup = ShmSegment::open("/s", 4096).unwrap();
    let (seen, outcome) = calls(setup, &[SysReply::Done, mapped(0x5000)]);
    assert_eq!(seen.len(), 2);
    assert!(matches!(
        &seen[0],
        Syscall::ShmOpen {
            path,
            flags: OpenFlags { read_write: true, create: false, exclusive: false },
            mode: 0o600,
        } if path == "/s"
    ));
    assert!(matches!(
        seen[1],
        Syscall::Mmap(MapRequest {
            address: None,
            length: 4096,
            protection: Protection::ReadWrite,
            backing: Backing::Object { offset: 0 },
        })
    ));
    assert_eq!(outcome, Some(Outcome::Mapped { ptr: 0x5000, size: 4096 }));
}

#[test]
fn a_part_that_cannot_be_mapped_gives_everything_back() {
    for good_parts in 0..3 {
        let setup = zoosync_core::shm::ShmSegment::open_mirrored("q", 100, 7).unwrap();
        let mut replies = vec![SysReply::Done, mapped(0x9000)];
        for _ in 0..good_parts {
            replies.push(mapped(0x9000));
        }
        replies.push(SysReply::Failed { errno: 12 });
        replies.push(SysReply::Unmapped { errno: 22 });
        let (seen, outcome) = calls(setup, &replies);
        assert!(matches!(seen.last(), Some(Syscall::Munmap { address: 0x9000, length: 114 })));
        assert_eq!(outcome, Some(Outcome::Failed { errno: 22 }));
    }
}

#[test]
fn a_refusal_before_anything_is_mapped_ends_at_once() {
    let refused = SysReply::Failed { errno: 5 };
    let single = ShmSegment::create("s", 64).unwrap();
    assert_eq!(calls(single, &[refused]).1, Some(Outcome::Failed { errno: 5 }));
    let single = ShmSegment::create("s", 64).unwrap();
    assert_eq!(
        calls(single, &[SysReply::Done, refused]).1,
        Some(Outcome::Failed { errno: 5 })
    );
    let single = ShmSegment::create("s", 64).unwrap();
    assert_eq!(
        calls(single, &[SysReply::Done, SysReply::Done, refused]).1,
        Some(Outcome::Failed { errno: 5 })
    );
    let mirrored = ShmSegment::open_mirrored("s", 64, 64, 64).unwrap();
    assert_eq!(
        calls(mirrored, &[SysReply::Done, refused]).1,
        Some(Outcome::Failed { errno: 5 })
    );
}

#[test]
fn sizes_that_cannot_be_added_are_not_accepted() {
    let setup = ShmSegment::open_mirrored("s", 64, usize::MAX - 63, 64).unwrap();
    assert!(!setup.accepts(SysReply::Done));
    assert!(setup.accepts(SysReply::Failed { errno: 2 }));
    assert!(!setup.accepts(mapped(0x1000)));
}

#[test]
fn both_flavours_create() {
    let setup = zoosync_core::shm::ShmSegment::create("lock", 4096).unwrap();
    assert!(setup.create);
    let setup = zoosync_core::shm::ShmSegment::create_mirrored("q", 1, 2).unwrap();
    assert!(setup.create);
    let setup = ShmSegment::create("lock", 4096).unwrap();
    assert!(setup.create);
}

#[test]
fn names_get_a_slash() {
    assert_eq!(shm_path("a").unwrap(), "/a");
    assert_eq!(shm_path("/a").unwrap(), "/a");
    assert_eq!(shm_path("//a").unwrap(), "//a");
    assert_eq!(shm_path("").unwrap(), "/");
    assert_eq!(shm_path("\u{e9}/x").unwrap(), "/\u{e9}/x");
}

#[test]
fn names_with_a_zero_byte_are_refused() {
    assert_eq!(
        shm_path("a\0b\0").unwrap_err(),
        ShmError::CString(NulError { position: 2 })
    );
    assert_eq!(
        shm_path("/\u{e9}\0").unwrap_err(),
        ShmError::CString(NulError { position: 3 })
    );
    let refused = ShmSegment::create("\0", 1).unwrap_err();
    assert_eq!(
        refused.message(),
        "CString error: nul byte found in provided data at position: 1"
    );
    assert!(matches!(
        zoosync_core::shm::ShmSegment::unlink("\0"),
        Err(zoosync_core::shm::ShmError::CString(NulError { position: 1 }))
    ));
}

#[test]
fn sizes_must_be_whole_pages() {
    let header = ShmSegment::create_mirrored("\0", 4097, 1, 4096).unwrap_err();
    assert_eq!(header, ShmError::AlignmentError(4097, 4096));
    assert_eq!(
        header.message(),
        "Size must be page-aligned (got 4097, page size 4096)"
    );
    let data = ShmSegment::open_mirrored("\0", 8192, 10, 4096).unwrap_err();
    assert_eq!(data, ShmError::AlignmentError(10, 4096));
    let name = ShmSegment::open_mirrored("\0", 8192, 4096, 4096).unwrap_err();
    assert_eq!(name, ShmError::CString(NulError { position: 1 }));
    assert!(zoosync_core::shm::ShmSegment::open_mirrored("q", 4097, 1).is_ok());
    assert_eq!(
        ShmSegment::open_mirrored("q", 0, 3, 0).unwrap_err(),
        ShmError::AlignmentError(3, 0)
    );
}

#[test]
fn a_segment_gives_back_all_of_its_memory() {
    let segment = ShmSegment { ptr: 0x4000, size: 24576 };
    assert!(matches!(
        segment.release(),
        Syscall::Munmap { address: 0x4000, length: 24576 }
    ));
}

#[test]
fn unlinking_reports_the_refusal() {
    assert_eq!(ShmSegment::unlinked(SysReply::Done), Ok(()));
    assert_eq!(
        ShmSegment::unlinked(SysReply::Failed { errno: 2 }),
        Err(ShmError::Nix(2))
    );
}

#[test]
fn blocks_run_over_the_end_into_the_mirror() {
    let mut table = AddressTable { maps: vec![] };
    let setup = ShmSegment::open_mirrored("q", 4096, 8192, 4096).unwrap();
    let outcome = drive(setup, &mut |call| match call {
        Syscall::ShmOpen { .. } => SysReply::Done,
        Syscall::Mmap(request) => mapped(table.map(request)),
        _ => panic!("unexpected call"),
    });
    let shm = ShmSegment::finish(outcome).unwrap();
    for (start, i) in [(0, 0), (8191, 0), (8191, 1), (5000, 8191)] {
        let offset = table.offset(shm.ptr + 4096 + start + i);
        assert_eq!(offset as usize, 4096 + (start + i) % 8192);
    }
    assert_eq!(table.offset(shm.ptr + 4095), 4095);
}

#[test]
fn an_empty_segment_is_not_mapped() {
    let opened = ShmSegment::open("s", 0).unwrap();
    assert!(!opened.accepts(SysReply::Done));
    assert!(opened.accepts(SysReply::Failed { errno: 2 }));
    let created = ShmSegment::create("s", 0).unwrap();
    assert!(created.accepts(SysReply::Done));
    match created.advance(SysReply::Done) {
        Progress::Pending(sized) => {
            assert!(matches!(sized.syscall(), Syscall::Truncate { length: 0 }));
            assert!(!sized.accepts(SysReply::Done));
        }
        Progress::Finished(_) => panic!("setup ended early"),
    }
    assert!(ShmSegment::open("s", 1).unwrap().accepts(SysReply::Done));
}

#[test]
fn an_unmapping_that_is_refused_is_reported() {
    let setup = ShmSegment::open_mirrored("q", 4096, 4096, 4096).unwrap();
    let replies = [
        SysReply::Done,
        mapped(0x9000),
        SysReply::Failed { errno: 12 },
        SysReply::Failed { errno: 22 },
    ];
    let (seen, outcome) = calls(setup, &replies);
    assert!(matches!(seen[3], Syscall::Munmap { address: 0x9000, length: 12288 }));
    assert_eq!(outcome, Some(Outcome::Failed { errno: 22 }));
}

#[test]
fn error_numbers_are_those_of_the_system() {
    assert_eq!(ENOENT, libc::ENOENT);
    assert_eq!(EEXIST, libc::EEXIST);
    assert_eq!(zoosync::sync::EPERM, libc::EPERM);
}

#[test]
fn a_removed_name_is_free_and_its_object_lives_on() {
    let name = temp_name();
    let path = shm_path(&name).unwrap();
    let mode = Mode::S_IRUSR | Mode::S_IWUSR;
    let old = shm_open(path.as_str(), OFlag::O_RDWR | OFlag::O_CREAT | OFlag::O_EXCL, mode).unwrap();
    ftruncate(&old, 4096).unwrap();
    pwrite(&old, &[7], 0).unwrap();
    unlink(&name);

    let again = match ShmSegment::unlink(&name).unwrap() {
        Syscall::ShmUnlink { path } => match shm_unlink(path.as_str()) {
            Ok(()) => SysReply::Done,
            Err(e) => failed(e),
        },
        _ => panic!("not an unlink call"),
    };
    assert_eq!(ShmSegment::unlinked(again), Err(ShmError::Nix(ENOENT)));

    let mut perform = |call: Syscall| match call {
        Syscall::ShmOpen { path, flags, mode } => {
            match shm_open(path.as_str(), open_flags(flags), Mode::from_bits_truncate(mode)) {
                Ok(fd) => {
                    let mut byte = [1u8; 1];
                    assert_eq!(pread(&fd, &mut byte, 0), Ok(0));
                    SysReply::Done
                }
                Err(e) => failed(e),
            }
        }
        Syscall::Truncate { .. } => SysReply::Done,
        Syscall::Mmap(_) => mapped(0x10_0000),
        _ => panic!("unexpected call"),
    };
    let opened = drive(ShmSegment::open(&name, 4096).unwrap(), &mut perform);
    assert_eq!(ShmSegment::finish(opened), Err(ShmError::Nix(ENOENT)));
    let made = drive(ShmSegment::create(&name, 4096).unwrap(), &mut perform);
    assert!(ShmSegment::finish(made).is_ok());
    let mut byte = [0u8; 1];
    pread(&old, &mut byte, 0).unwrap();
    assert_eq!(byte[0], 7);
    unlink(&name);
}

#[test]
fn a_plain_and_a_mirrored_segment_share_the_object() {
    let mut tables = vec![];
    let mut starts = vec![];
    for setup in [
        ShmSegment::open("q", 12288).unwrap(),
        ShmSegment::open_mirrored("q", 4096, 8192, 4096).unwrap(),
    ] {
        let mut table = AddressTable { maps: vec![] };
        let outcome = drive(setup, &mut |call| match call {
            Syscall::ShmOpen { .. } => SysReply::Done,
            Syscall::Mmap(request) => mapped(table.map(request)),
            _ => panic!("unexpected call"),
        });
        starts.push(ShmSegment::finish(outcome).unwrap().ptr);
        tables.push(table);
    }
    for i in [0, 4095, 4096, 12287] {
        assert_eq!(tables[0].offset(starts[0] + i), tables[1].offset(starts[1] + i));
    }
    for i in [4096, 12287] {
        assert_eq!(tables[0].offset(starts[0] + i), tables[1].offset(starts[1] + i + 8192));
    }
}

#[test]
fn a_release_covers_what_the_setup_reserved() {
    let setup = ShmSegment::open_mirrored("q", 4096, 8192, 4096).unwrap();
    let replies =
        [SysReply::Done, mapped(0x9000), mapped(0x9000), mapped(0xa000), mapped(0xc000)];
    let (seen, outcome) = calls(setup, &replies);
    let reserved = match seen[1] {
        Syscall::Mmap(request) => request.length,
        _ => panic!("not a map call"),
    };
    let segment = ShmSegment::finish(outcome.unwrap()).unwrap();
    match segment.release() {
        Syscall::Munmap { address, length } => {
            assert_eq!((address, length), (0x9000, reserved));
        }
        _ => panic!("not an unmap call"),
    }
}
