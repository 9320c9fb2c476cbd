use aprk_kernel::fs::{
    collect_chunk, BlockDeviceWrapper, ReadStep, SectorRead, SeekFrom, SeekableBlockDevice,
    CHUNK_SIZE, SECTOR_SIZE,
};

fn sector(n: u64) -> [u8; 512] {
    let mut s = [0u8; 512];
    for (i, b) in s.iter_mut().enumerate() {
        *b = ((n as usize * 31 + i) % 251) as u8;
    }
    s
}

/// Reads as a file system would: sector by sector until the buffer is full.
fn read_all(dev: &mut SeekableBlockDevice, buf: &mut [u8]) -> Vec<u64> {
    let mut fetched = Vec::new();
    let mut done = 0;
    while done < buf.len() {
        let part = dev.next_sector(buf.len() - done);
        fetched.push(part.sector);
        done += dev.read(&sector(part.sector), buf, done);
    }
    fetched
}

fn disk_byte(at: u64) -> u8 {
    sector(at / 512)[(at % 512) as usize]
}

#[test]
fn new_device_starts_at_zero() {
    assert_eq!(SeekableBlockDevice::new().offset(), 0);
    assert_eq!(SECTOR_SIZE, 512);
    assert_eq!(CHUNK_SIZE, 512);
}

#[test]
fn next_sector_names_the_sector_under_the_cursor() {
    let mut dev = SeekableBlockDevice::new();
    assert_eq!(dev.next_sector(100), SectorRead { sector: 0, start: 0, len: 100 });
    assert_eq!(dev.next_sector(512), SectorRead { sector: 0, start: 0, len: 512 });
    assert_eq!(dev.next_sector(5000), SectorRead { sector: 0, start: 0, len: 512 });
    assert_eq!(dev.next_sector(0), SectorRead { sector: 0, start: 0, len: 0 });
    dev.seek(SeekFrom::Start(1034)).unwrap();
    assert_eq!(dev.next_sector(5000), SectorRead { sector: 2, start: 10, len: 502 });
    assert_eq!(dev.next_sector(4), SectorRead { sector: 2, start: 10, len: 4 });
}

#[test]
fn read_copies_the_part_and_moves_the_cursor() {
    let mut dev = SeekableBlockDevice::new();
    dev.seek(SeekFrom::Start(3 * 512 + 500)).unwrap();
    let mut buf = [0xeeu8; 40];
    let n = dev.read(&sector(3), &mut buf, 8);
    assert_eq!(n, 12);
    assert_eq!(dev.offset(), 4 * 512);
    assert_eq!(&buf[..8], &[0xee; 8]);
    assert_eq!(&buf[8..20], &sector(3)[500..512]);
    assert_eq!(&buf[20..], &[0xee; 20]);
}

#[test]
fn read_into_a_full_buffer_copies_nothing() {
    let mut dev = SeekableBlockDevice::new();
    dev.seek(SeekFrom::Start(7)).unwrap();
    let mut buf = [1u8; 4];
    assert_eq!(dev.read(&sector(0), &mut buf, 4), 0);
    assert_eq!(buf, [1u8; 4]);
    assert_eq!(dev.offset(), 7);
    let mut none: [u8; 0] = [];
    assert_eq!(dev.read(&sector(0), &mut none, 0), 0);
}

#[test]
fn a_read_across_sectors_fetches_each_once() {
    let mut dev = SeekableBlockDevice::new();
    dev.seek(SeekFrom::Start(300)).unwrap();
    let mut buf = vec![0u8; 1500];
    let fetched = read_all(&mut dev, &mut buf);
    assert_eq!(fetched, vec![0, 1, 2, 3]);
    assert_eq!(dev.offset(), 1800);
    for (i, b) in buf.iter().enumerate() {
        assert_eq!(*b, disk_byte(300 + i as u64));
    }
}

#[test]
fn seek_from_start_and_current() {
    let mut dev = SeekableBlockDevice::new();
    assert_eq!(dev.seek(SeekFrom::Start(4096)), Ok(4096));
    assert_eq!(dev.seek(SeekFrom::Current(10)), Ok(4106));
    assert_eq!(dev.seek(SeekFrom::Current(-106)), Ok(4000));
    assert_eq!(dev.seek(SeekFrom::Current(0)), Ok(4000));
    assert_eq!(dev.offset(), 4000);
}

#[test]
fn seek_from_current_wraps() {
    let mut dev = SeekableBlockDevice::new();
    assert_eq!(dev.seek(SeekFrom::Current(-1)), Ok(u64::MAX));
    assert_eq!(dev.seek(SeekFrom::Current(2)), Ok(1));
    assert_eq!(dev.seek(SeekFrom::Start(u64::MAX)), Ok(u64::MAX));
    assert_eq!(dev.seek(SeekFrom::Current(i64::MIN)), Ok(u64::MAX - (1 << 63)));
}

#[test]
fn seek_from_end_fails_and_stays() {
    let mut dev = SeekableBlockDevice::new();
    dev.seek(SeekFrom::Start(77)).unwrap();
    assert_eq!(dev.seek(SeekFrom::End(0)), Err(()));
    assert_eq!(dev.seek(SeekFrom::End(-512)), Err(()));
    assert_eq!(dev.offset(), 77);
}

#[test]
fn write_fails_and_flush_succeeds() {
    let mut dev = SeekableBlockDevice::new();
    dev.seek(SeekFrom::Start(5)).unwrap();
    assert_eq!(dev.write(b"data"), Err(()));
    assert_eq!(dev.flush(), Ok(()));
    assert_eq!(dev.offset(), 5);
}

#[test]
fn block_device_wrapper_cannot_be_read() {
    let mut dev = BlockDeviceWrapper;
    let mut buf = [3u8; 16];
    assert_eq!(dev.read(&mut buf), Err(()));
    assert_eq!(buf, [3u8; 16]);
}

#[test]
fn chunks_are_collected_until_an_empty_one() {
    let mut contents = Vec::new();
    let mut chunk = [0u8; 512];
    chunk[..5].copy_from_slice(b"hello");
    assert_eq!(collect_chunk(&mut contents, &chunk, Ok(5)), ReadStep::Continue);
    assert_eq!(contents, b"hello");
    chunk = [b'x'; 512];
    assert_eq!(collect_chunk(&mut contents, &chunk, Ok(512)), ReadStep::Continue);
    assert_eq!(contents.len(), 517);
    assert_eq!(&contents[5..], &[b'x'; 512][..]);
    assert_eq!(collect_chunk(&mut contents, &chunk, Ok(0)), ReadStep::Done);
    assert_eq!(contents.len(), 517);
}

#[test]
fn a_failed_read_ends_the_file_with_what_was_read() {
    let mut contents = b"so far".to_vec();
    let chunk = [b'x'; 512];
    assert_eq!(collect_chunk(&mut contents, &chunk, Err(())), ReadStep::Done);
    assert_eq!(contents, b"so far");
    // a count that the chunk cannot hold is not believed
    assert_eq!(collect_chunk(&mut contents, &chunk, Ok(513)), ReadStep::Done);
    assert_eq!(contents, b"so far");
}
