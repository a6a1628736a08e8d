use caligula::writer_process::ipc::ErrorType;
use caligula::writer_process::ops::{
    block_verify_outcome, block_write_outcome, blocks_match, plan_buffers, AfterBlock, AfterRead,
    BlockCounter, BufferPlan,
};

#[test]
fn unknown_block_size_is_taken_as_512() {
    assert_eq!(
        plan_buffers(None),
        BufferPlan { buf_size: 1 << 20, disk_block_size: 512, checkpoint_period: 8 }
    );
}

#[test]
fn small_blocks_give_smaller_buffers() {
    assert_eq!(
        plan_buffers(Some(64)),
        BufferPlan { buf_size: 131072, disk_block_size: 64, checkpoint_period: 64 }
    );
    assert_eq!(
        plan_buffers(Some(4096)),
        BufferPlan { buf_size: 1 << 20, disk_block_size: 4096, checkpoint_period: 8 }
    );
}

#[test]
fn write_pass_checkpoints_every_period() {
    let mut c = BlockCounter::new(3);
    assert_eq!(c.write_after_read(512), AfterRead::WriteBlock);
    assert_eq!(c.write_after_write(512), AfterBlock::Continue);
    assert_eq!(c.write_after_write(512), AfterBlock::Continue);
    assert_eq!(c.write_after_write(512), AfterBlock::Checkpoint);
    assert_eq!(c.write_after_write(512), AfterBlock::Continue);
    assert_eq!(c.write_after_read(0), AfterRead::Finish);
}

#[test]
fn write_pass_fails_when_the_disk_ends() {
    let mut c = BlockCounter::new(2);
    assert_eq!(c.write_after_write(0), AfterBlock::Fail(ErrorType::EndOfOutput));
    assert_eq!(c.write_after_write(1), AfterBlock::Continue);
    assert_eq!(c.write_after_write(1), AfterBlock::Checkpoint);
}

#[test]
fn verify_pass_fails_on_a_mismatch() {
    let mut c = BlockCounter::new(1);
    assert_eq!(c.verify_after_compare(true), AfterBlock::Checkpoint);
    assert_eq!(
        c.verify_after_compare(false),
        AfterBlock::Fail(ErrorType::VerificationFailed)
    );
}

#[test]
fn blocks_match_compares_only_the_prefix_read() {
    assert!(blocks_match(&[1, 2, 3, 4], &[1, 2, 3, 9], 3));
    assert!(!blocks_match(&[1, 2, 3, 4], &[1, 2, 3, 9], 4));
    assert!(blocks_match(&[5], &[6], 0));
    assert!(!blocks_match(&[0, 1], &[1, 1], 1));
}

/// Drives the write pass decisions over `blocks` full blocks of `buf_size`
/// bytes and returns the `dest` byte counts of its progress reports.
fn write_reports(blocks: usize, buf_size: usize, period: usize) -> Vec<usize> {
    let mut c = BlockCounter::new(period);
    let mut dest = 0;
    let mut reports = vec![];
    for read in (0..=blocks).map(|b| if b < blocks { buf_size } else { 0 }) {
        match c.write_after_read(read) {
            AfterRead::Finish => {
                reports.push(dest);
                return reports;
            }
            AfterRead::WriteBlock => {}
        }
        dest += buf_size;
        match c.write_after_write(buf_size) {
            AfterBlock::Checkpoint => reports.push(dest),
            AfterBlock::Continue => {}
            AfterBlock::Fail(e) => panic!("unexpected {e:?}"),
        }
    }
    reports
}

#[test]
fn write_op_works() {
    // 1024 bytes in 16-byte blocks, a report every 16 blocks
    assert_eq!(write_reports(64, 16, 16), vec![256, 512, 768, 1024, 1024]);
    // a partial last period still ends with a report
    assert_eq!(write_reports(5, 16, 2), vec![32, 64, 80]);
}

#[test]
fn short_writes_mean_the_disk_ended() {
    assert_eq!(block_write_outcome(4, 4), Ok(()));
    assert_eq!(block_write_outcome(3, 4), Err(ErrorType::EndOfOutput));
    assert_eq!(block_write_outcome(0, 0), Ok(()));
}

#[test]
fn verified_blocks_must_match_the_disk() {
    let block: Vec<u8> = (0..250u32).map(|i| (i * 7 % 256) as u8).collect();
    let mut wrong = block.clone();
    wrong[93] ^= 0xff;
    assert_eq!(block_verify_outcome(&block, &block.clone(), 250), Ok(()));
    assert_eq!(
        block_verify_outcome(&block, &wrong, 250),
        Err(ErrorType::VerificationFailed)
    );
    assert_eq!(
        block_verify_outcome(&block, &block.clone(), 249),
        Err(ErrorType::EndOfOutput)
    );
}

/// Bytes that look random enough for a disk image.
fn pseudo_random(n: usize) -> Vec<u8> {
    let mut x: u32 = 0x2545_f491;
    (0..n)
        .map(|_| {
            x ^= x << 13;
            x ^= x >> 17;
            x ^= x << 5;
            x as u8
        })
        .collect()
}

#[test]
fn write_sink_on_block() {
    let mut file: Vec<u8> = vec![];
    for block in [&[1u8, 2, 3, 4][..], &[1, 2, 3, 4, 5, 6][..]] {
        let written = std::io::Write::write(&mut file, block).unwrap();
        assert_eq!(block_write_outcome(written, block.len()), Ok(()));
    }
    assert_eq!(file, vec![1, 2, 3, 4, 1, 2, 3, 4, 5, 6]);
}

/// Checks `src` block by block against what reading `file` back gives.
fn verify_blocks(src: &[u8], file: Vec<u8>, blocks: &[(usize, usize)]) -> Vec<Result<(), ErrorType>> {
    let mut disk = std::io::Cursor::new(file);
    blocks
        .iter()
        .map(|&(from, to)| {
            let block = &src[from..to];
            let mut scratch = pseudo_random(to - from);
            let read = std::io::Read::read(&mut disk, &mut scratch).unwrap();
            block_verify_outcome(block, &scratch, read)
        })
        .collect()
}

#[test]
fn verify_sink_multiple_blocks_incorrect() {
    let src = pseudo_random(1000);
    let mut file = src.clone();
    file[593] = file[593].wrapping_add(1);
    let results = verify_blocks(&src, file, &[(0, 250), (250, 500), (500, 750)]);
    assert_eq!(results, vec![Ok(()), Ok(()), Err(ErrorType::VerificationFailed)]);
}

#[test]
fn verify_sink_multiple_blocks_correct() {
    let src = pseudo_random(1000);
    let file = src.clone();
    let results = verify_blocks(&src, file, &[(0, 500), (500, 1000)]);
    assert_eq!(results, vec![Ok(()), Ok(())]);
}
