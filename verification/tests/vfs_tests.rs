use vfs_kernel::kernel::Kernel;
use vfs_kernel::tmpfs::{tmpfs_drive, tmpfs_fsops};
use vfs_kernel::vfs::{Directory, File, FsError};

#[test]
fn mount_and_resolve_root() {
    let mut k = Kernel::new();
    let drive = tmpfs_drive();
    let root = drive.root;
    k.mount_drive('A', drive).unwrap();
    let found = k.vfs_find("A:/").unwrap();
    assert_eq!(found, root);
    let d = k.unmount_drive('A').unwrap();
    assert!(found.open_dir(&d.backend).is_ok());
}

#[test]
fn mount_same_letter_twice_fails() {
    let mut k = Kernel::new();
    k.mount_drive('A', tmpfs_drive()).unwrap();
    let r = k.mount_drive('A', tmpfs_drive());
    assert!(matches!(r, Err(FsError::AlreadyExists)));
    // and the first mount is still there
    assert!(k.vfs_find("A:/").is_ok());
}

#[test]
fn mount_outside_letter_range_fails() {
    let mut k = Kernel::new();
    assert!(matches!(k.mount_drive('a', tmpfs_drive()), Err(FsError::InvalidDrive)));
    assert!(matches!(k.mount_drive('[', tmpfs_drive()), Err(FsError::InvalidDrive)));
    assert!(matches!(k.mount_drive('@', tmpfs_drive()), Err(FsError::InvalidDrive)));
    assert!(matches!(k.mount_drive('0', tmpfs_drive()), Err(FsError::InvalidDrive)));
}

#[test]
fn write_read_round_trip() {
    let mut k = Kernel::new();
    k.mount_drive('A', tmpfs_drive()).unwrap();
    k.vfs_mkdir("A:/foo").unwrap();
    k.vfs_create("A:/foo/bar.txt").unwrap();
    let mut f = k.vfs_open("A:/foo/bar.txt").unwrap();
    let mut drive = k.unmount_drive('A').unwrap();
    let written = f.write(&mut drive.backend, b"Hello World!").unwrap();
    assert_eq!(written, 12);
    k.mount_drive('A', drive).unwrap();

    let mut f2 = k.vfs_open("A:/foo/bar.txt").unwrap();
    let drive = k.unmount_drive('A').unwrap();
    let mut buf = vec![0u8; 50];
    let n = f2.read(&drive.backend, &mut buf).unwrap();
    assert_eq!(n, 12);
    assert_eq!(&buf[..n], b"Hello World!");
    // the rest of the buffer is untouched
    assert!(buf[n..].iter().all(|b| *b == 0));
}

#[test]
fn read_into_small_buffer_returns_prefix() {
    let mut drive = tmpfs_drive();
    let mut root_dir = drive.root.open_dir(&drive.backend).unwrap();
    root_dir.create(&mut drive.backend, "data.bin").unwrap();
    let ent = root_dir.find(&drive.backend, "data.bin").unwrap();
    let mut f = ent.open(&drive.backend).unwrap();
    f.write(&mut drive.backend, b"0123456789").unwrap();
    let mut buf = vec![0u8; 4];
    let n = f.read(&drive.backend, &mut buf).unwrap();
    assert_eq!(n, 4);
    assert_eq!(&buf[..], b"0123");
}

#[test]
fn read_empty_file_returns_nothing() {
    let mut drive = tmpfs_drive();
    let mut root_dir = drive.root.open_dir(&drive.backend).unwrap();
    root_dir.create(&mut drive.backend, "empty").unwrap();
    let mut f = root_dir.find(&drive.backend, "empty").unwrap().open(&drive.backend).unwrap();
    let mut buf = vec![7u8; 8];
    let n = f.read(&drive.backend, &mut buf).unwrap();
    assert_eq!(n, 0);
    assert_eq!(&buf[..], &[7u8; 8]);
}

#[test]
fn writes_append() {
    let mut drive = tmpfs_drive();
    let mut root_dir = drive.root.open_dir(&drive.backend).unwrap();
    root_dir.create(&mut drive.backend, "log").unwrap();
    let mut f = root_dir.find(&drive.backend, "log").unwrap().open(&drive.backend).unwrap();
    assert_eq!(f.write(&mut drive.backend, b"ab").unwrap(), 2);
    assert_eq!(f.write(&mut drive.backend, b"cd").unwrap(), 2);
    let mut buf = vec![0u8; 10];
    let n = f.read(&drive.backend, &mut buf).unwrap();
    assert_eq!(n, 4);
    assert_eq!(&buf[..n], b"abcd");
}

#[test]
fn lookup_missing_component_fails_not_found() {
    let mut k = Kernel::new();
    k.mount_drive('A', tmpfs_drive()).unwrap();
    assert!(matches!(k.vfs_find("A:/nope"), Err(FsError::NotFound)));
    k.vfs_mkdir("A:/sub").unwrap();
    assert!(matches!(k.vfs_find("A:/sub/nope"), Err(FsError::NotFound)));
    assert!(matches!(k.vfs_open("A:/sub/deep/nope"), Err(FsError::NotFound)));
}

#[test]
fn kind_mismatch_on_open() {
    let mut k = Kernel::new();
    k.mount_drive('A', tmpfs_drive()).unwrap();
    k.vfs_mkdir("A:/dir").unwrap();
    k.vfs_create("A:/file").unwrap();
    // a directory entry refuses to open as a file
    assert!(matches!(k.vfs_open("A:/dir"), Err(FsError::IsNotFile)));
    // a file entry refuses to open as a directory
    let ent = k.vfs_find("A:/file").unwrap();
    let drive = k.unmount_drive('A').unwrap();
    assert!(matches!(ent.open_dir(&drive.backend), Err(FsError::IsNotDirectory)));
    // resolving through a file also fails that way
    let mut k2 = Kernel::new();
    k2.mount_drive('A', drive).unwrap();
    assert!(matches!(k2.vfs_find("A:/file/x"), Err(FsError::IsNotDirectory)));
}

#[test]
fn absent_table_slots_fail_unsupported() {
    let mut drive = tmpfs_drive();
    // a read-only table: lookups and reads only
    let mut ops = tmpfs_fsops();
    ops.create = false;
    ops.mkdir = false;
    ops.write = false;
    let mut ro_root = Directory::new(ops, 0);
    assert!(matches!(
        ro_root.create(&mut drive.backend, "x"),
        Err(FsError::Unsupported)
    ));
    assert!(matches!(
        ro_root.mkdir(&mut drive.backend, "x"),
        Err(FsError::Unsupported)
    ));
    // nothing was created by the refused calls
    assert!(matches!(
        ro_root.find(&drive.backend, "x"),
        Err(FsError::NotFound)
    ));
    // a file handle without the write / read slots
    let mut rw = tmpfs_fsops();
    rw.write = false;
    rw.read = false;
    let mut full_root = drive.root.open_dir(&drive.backend).unwrap();
    full_root.create(&mut drive.backend, "f").unwrap();
    let real = full_root.find(&drive.backend, "f").unwrap().open(&drive.backend).unwrap();
    let mut crippled = File::new(rw, real.private);
    assert!(matches!(
        crippled.write(&mut drive.backend, b"zz"),
        Err(FsError::Unsupported)
    ));
    let mut buf = vec![0u8; 4];
    assert!(matches!(
        crippled.read(&drive.backend, &mut buf),
        Err(FsError::Unsupported)
    ));
    assert_eq!(&buf[..], &[0u8; 4]);
}

#[test]
fn malformed_paths_are_rejected() {
    let mut k = Kernel::new();
    k.mount_drive('A', tmpfs_drive()).unwrap();
    // no colon
    assert!(matches!(k.vfs_find("A/foo"), Err(FsError::InvalidPath)));
    // drive token not a single letter
    assert!(matches!(k.vfs_find("AB:/foo"), Err(FsError::InvalidDrive)));
    assert!(matches!(k.vfs_find(":/foo"), Err(FsError::InvalidDrive)));
    assert!(matches!(k.vfs_find("a:/foo"), Err(FsError::InvalidDrive)));
    // missing leading slash after the colon
    assert!(matches!(k.vfs_find("A:foo"), Err(FsError::InvalidPath)));
    // no slash at all in a create path, or an empty final component
    assert!(matches!(k.vfs_create("A:"), Err(FsError::InvalidPath)));
    assert!(matches!(k.vfs_create("A:/"), Err(FsError::InvalidPath)));
    assert!(matches!(k.vfs_mkdir("A:/"), Err(FsError::InvalidPath)));
}

#[test]
fn unmounted_drive_is_missing() {
    let mut k = Kernel::new();
    k.mount_drive('A', tmpfs_drive()).unwrap();
    assert!(matches!(k.vfs_find("B:/x"), Err(FsError::MissingDrive)));
    assert!(matches!(k.unmount_drive('B'), Err(FsError::MissingDrive)));
    assert!(matches!(k.unmount_drive('+'), Err(FsError::InvalidDrive)));
    // after an unmount the letter is free again
    let drive = k.unmount_drive('A').unwrap();
    assert!(matches!(k.vfs_find("A:/"), Err(FsError::MissingDrive)));
    k.mount_drive('A', drive).unwrap();
    assert!(k.vfs_find("A:/").is_ok());
}

#[test]
fn trailing_slash_is_tolerated() {
    let mut k = Kernel::new();
    k.mount_drive('A', tmpfs_drive()).unwrap();
    k.vfs_mkdir("A:/foo").unwrap();
    assert!(k.vfs_find("A:/foo/").is_ok());
    assert_eq!(k.vfs_find("A:/foo/").unwrap(), k.vfs_find("A:/foo").unwrap());
}

#[test]
fn empty_component_is_looked_up_literally() {
    let mut k = Kernel::new();
    k.mount_drive('A', tmpfs_drive()).unwrap();
    k.vfs_mkdir("A:/a").unwrap();
    k.vfs_mkdir("A:/a/b").unwrap();
    // `A:/a//b` asks directory `a` for an entry named "" first
    assert!(matches!(k.vfs_find("A:/a//b"), Err(FsError::NotFound)));
}

#[test]
fn dot_components_are_ordinary_names() {
    let mut k = Kernel::new();
    k.mount_drive('A', tmpfs_drive()).unwrap();
    assert!(matches!(k.vfs_find("A:/."), Err(FsError::NotFound)));
    assert!(matches!(k.vfs_find("A:/.."), Err(FsError::NotFound)));
    k.vfs_mkdir("A:/.").unwrap();
    assert!(k.vfs_find("A:/.").is_ok());
}

#[test]
fn duplicate_names_shadow_by_insertion_order() {
    let mut drive = tmpfs_drive();
    let mut root_dir = drive.root.open_dir(&drive.backend).unwrap();
    root_dir.create(&mut drive.backend, "twin").unwrap();
    let first = root_dir.find(&drive.backend, "twin").unwrap();
    let mut f = first.open(&drive.backend).unwrap();
    f.write(&mut drive.backend, b"original").unwrap();
    // a second entry with the same name is allowed, but lookup still
    // returns the first
    root_dir.create(&mut drive.backend, "twin").unwrap();
    let found = root_dir.find(&drive.backend, "twin").unwrap();
    assert_eq!(found, first);
    let mut g = found.open(&drive.backend).unwrap();
    let mut buf = vec![0u8; 16];
    let n = g.read(&drive.backend, &mut buf).unwrap();
    assert_eq!(&buf[..n], b"original");
}

#[test]
fn deep_paths_resolve() {
    let mut k = Kernel::new();
    k.mount_drive('Z', tmpfs_drive()).unwrap();
    k.vfs_mkdir("Z:/a").unwrap();
    k.vfs_mkdir("Z:/a/b").unwrap();
    k.vfs_mkdir("Z:/a/b/c").unwrap();
    k.vfs_create("Z:/a/b/c/leaf").unwrap();
    let mut f = k.vfs_open("Z:/a/b/c/leaf").unwrap();
    let mut drive = k.unmount_drive('Z').unwrap();
    f.write(&mut drive.backend, b"deep").unwrap();
    k.mount_drive('Z', drive).unwrap();
    let mut f2 = k.vfs_open("Z:/a/b/c/leaf").unwrap();
    let drive = k.unmount_drive('Z').unwrap();
    let mut buf = vec![0u8; 8];
    let n = f2.read(&drive.backend, &mut buf).unwrap();
    assert_eq!(&buf[..n], b"deep");
}

#[test]
fn independent_drives_do_not_interfere() {
    let mut k = Kernel::new();
    k.mount_drive('A', tmpfs_drive()).unwrap();
    k.mount_drive('B', tmpfs_drive()).unwrap();
    k.vfs_create("A:/only_a").unwrap();
    assert!(k.vfs_find("A:/only_a").is_ok());
    assert!(matches!(k.vfs_find("B:/only_a"), Err(FsError::NotFound)));
}
