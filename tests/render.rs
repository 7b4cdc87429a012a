use rrt::ppm::Image;
use rrt::renderer::{sample_shares, worker_shares, SampleSum};
use rrt::types::{Pixel, PixelU8};

#[test]
fn shares_put_remainder_on_last_worker() {
    assert_eq!(worker_shares(10, 3), vec![3, 3, 4]);
}

#[test]
fn shares_with_fewer_samples_than_workers() {
    assert_eq!(worker_shares(1, 4), vec![0, 0, 0, 1]);
}

#[test]
fn shares_of_one_worker() {
    assert_eq!(worker_shares(7, 1), vec![7]);
}

#[test]
fn shares_of_zero_samples() {
    assert_eq!(worker_shares(0, 2), vec![0, 0]);
}

#[test]
fn shares_always_add_up() {
    for samples in 1..60usize {
        for threads in 1..17usize {
            let shares = worker_shares(samples, threads);
            assert_eq!(shares.len(), threads);
            assert_eq!(shares.iter().sum::<usize>(), samples);
        }
    }
}

#[test]
fn shares_for_this_machine_add_up() {
    let shares = sample_shares(100);
    assert!(!shares.is_empty());
    assert_eq!(shares.iter().sum::<usize>(), 100);
}

#[test]
fn finish_without_samples_gives_nothing() {
    let sum: SampleSum<PixelU8> = SampleSum::new(2, 2);
    assert!(sum.finish().is_none());
}

#[test]
fn single_sample_is_returned_unchanged() {
    let mut sample: Image<PixelU8> = Image::new(2, 2);
    sample.set_pixel(0, 0, PixelU8::from_rgb8(1, 2, 3));
    sample.set_pixel(1, 1, PixelU8::from_rgb8(250, 0, 4));
    let mut sum: SampleSum<PixelU8> = SampleSum::new(2, 2);
    sum.add_sample(sample);
    let out = sum.finish().unwrap();
    assert_eq!(out.get_width(), 2);
    assert_eq!(out.get_height(), 2);
    let p = out.get_pixel(0, 0);
    assert_eq!((p.red8(), p.green8(), p.blue8()), (1, 2, 3));
    let p = out.get_pixel(1, 1);
    assert_eq!((p.red8(), p.green8(), p.blue8()), (250, 0, 4));
    let p = out.get_pixel(1, 0);
    assert_eq!((p.red8(), p.green8(), p.blue8()), (0, 0, 0));
}

#[test]
fn samples_are_summed() {
    let mut sum: SampleSum<PixelU8> = SampleSum::new(1, 1);
    for _ in 0..4 {
        let mut sample: Image<PixelU8> = Image::new(1, 1);
        sample.set_pixel(0, 0, PixelU8::from_rgb8(10, 20, 30));
        sum.add_sample(sample);
    }
    let p = sum.finish().unwrap().get_pixel(0, 0);
    assert_eq!((p.red8(), p.green8(), p.blue8()), (40, 80, 120));
}
