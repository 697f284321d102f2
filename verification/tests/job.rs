use std::sync::mpsc::channel;
use zippy::Job;
use zippy::polling::Job as PolledJob;

#[test]
fn wait_non_blocking_hands_the_job_back() {
    let (tx, rx) = channel::<usize>();
    let job = Job::new(rx);
    let job = match job.wait_non_blocking() {
        Ok(_) => panic!("nothing was sent yet"),
        Err(job) => job,
    };
    tx.send(3).unwrap();
    match job.wait_non_blocking() {
        Ok(v) => assert_eq!(v, 3),
        Err(_) => panic!("the result was sent"),
    }
}

#[test]
fn wait_non_blocking_on_a_dead_job_hands_it_back() {
    let (tx, rx) = channel::<usize>();
    let job = Job::new(rx);
    drop(tx);
    assert!(job.wait_non_blocking().is_err());
}

#[test]
fn into_receiver_gives_the_channel() {
    let (tx, rx) = channel::<usize>();
    let job = Job::new(rx);
    tx.send(9).unwrap();
    assert_eq!(job.into_receiver().recv().unwrap(), 9);
}

#[test]
fn try_wait_does_not_block() {
    let (tx, rx) = channel::<usize>();
    let job = PolledJob::new(rx);
    let job = match job.try_wait() {
        Ok(_) => panic!("nothing was sent yet"),
        Err(job) => job,
    };
    tx.send(4).unwrap();
    assert!(matches!(job.try_wait(), Ok(4)));
}
