use spectrum_monitor::audio::SpectrumFrame;
use spectrum_monitor::compute::{
    Compute, Dispatch, FrameTooLong, SampleData, TextureSize, DEFAULT_FACTOR, MAX_BUFFER_SIZE,
    RECORD_BYTES, WORKGROUP_HEIGHT, WORKGROUP_WIDTH,
};

fn bits(values: &[f32]) -> Vec<u32> {
    values.iter().map(|value| value.to_bits()).collect()
}

#[test]
fn default_factor_is_fifteen_hundredths() {
    assert_eq!(DEFAULT_FACTOR, 0.15f32.to_bits());
}

#[test]
fn new_record_is_zero_and_full() {
    let record = SampleData::new();
    assert_eq!(record.data, vec![0u32; 4096]);
    assert_eq!(record.length, 4096);
    assert_eq!(record.factor, 0.15f32.to_bits());
}

#[test]
fn update_data_fills_the_head_and_zeroes_the_rest() {
    let stage = Compute::new(800, 512);
    let spectrum = bits(&[0.5, 1.5, 2.5]);
    let record = stage.update_data(&spectrum, 0.3f32.to_bits()).unwrap();
    assert_eq!(record.data.len(), MAX_BUFFER_SIZE);
    assert_eq!(record.data[..3].to_vec(), spectrum);
    assert!(record.data[3..].iter().all(|slot| *slot == 0));
    assert_eq!(record.length, 3);
    assert_eq!(f32::from_bits(record.factor), 0.3);
}

#[test]
fn update_data_takes_an_empty_spectrum() {
    let stage = Compute::new(800, 512);
    let record = stage.update_data(&[], 7).unwrap();
    assert_eq!(record.data, vec![0u32; 4096]);
    assert_eq!(record.length, 0);
    assert_eq!(record.factor, 7);
}

#[test]
fn update_data_takes_a_full_record() {
    let stage = Compute::new(800, 512);
    let spectrum: Vec<u32> = (1..=4096).collect();
    let record = stage.update_data(&spectrum, 1).unwrap();
    assert_eq!(record.data, spectrum);
    assert_eq!(record.length, 4096);
}

#[test]
fn update_data_refuses_a_spectrum_beyond_the_record() {
    let stage = Compute::new(800, 512);
    let spectrum = vec![1u32; 4097];
    let refusal = stage.update_data(&spectrum, 1).unwrap_err();
    assert_eq!(refusal, FrameTooLong { length: 4097 });
}

#[test]
fn update_data_takes_the_largest_supported_spectrum() {
    let stage = Compute::new(800, 2048);
    let spectrum = vec![3u32; 4096 / 2 + 1];
    let record = stage.update_data(&spectrum, 1).unwrap();
    assert_eq!(record.length, 2049);
}

#[test]
fn create_texture_gives_the_size() {
    assert_eq!(Compute::create_texture(1440, 512), TextureSize { width: 1440, height: 512 });
}

#[test]
fn new_stage_has_two_equal_textures() {
    let stage = Compute::new(1440, 512);
    let size = TextureSize { width: 1440, height: 512 };
    assert_eq!(stage.texture_size(0), size);
    assert_eq!(stage.texture_size(1), size);
    assert_eq!(stage.height(), 512);
    assert_eq!(stage.output(), 1);
}

#[test]
fn first_update_writes_the_first_texture() {
    let mut stage = Compute::new(1440, 512);
    let step = stage.update(1440);
    let size = TextureSize { width: 1440, height: 512 };
    assert_eq!(
        step,
        Dispatch {
            history: 1,
            current: 0,
            history_size: size,
            current_size: size,
            groups_x: 45,
            groups_y: 64,
            groups_z: 1,
        }
    );
    assert_eq!(stage.output(), 0);
}

#[test]
fn output_alternates_with_every_update() {
    let mut stage = Compute::new(640, 256);
    assert_eq!(stage.output(), 1);
    for count in 1..=9usize {
        let before = stage.output();
        let step = stage.update(640);
        assert_eq!(step.history, before);
        assert_eq!(step.current, 1 - before);
        assert_eq!(stage.output(), step.current);
        assert_eq!(stage.output(), if count % 2 == 1 { 0 } else { 1 });
    }
}

#[test]
fn tile_count_rounds_up() {
    assert_eq!(Compute::tile_count(0, 32), 0);
    assert_eq!(Compute::tile_count(1, 32), 1);
    assert_eq!(Compute::tile_count(32, 32), 1);
    assert_eq!(Compute::tile_count(33, 32), 2);
    assert_eq!(Compute::tile_count(1440, WORKGROUP_WIDTH), 45);
    assert_eq!(Compute::tile_count(1441, WORKGROUP_WIDTH), 46);
    assert_eq!(Compute::tile_count(16, WORKGROUP_HEIGHT), 2);
    assert_eq!(Compute::tile_count(17, WORKGROUP_HEIGHT), 3);
    assert_eq!(Compute::tile_count(u32::MAX, 32), 134_217_728);
    assert_eq!(Compute::tile_count(u32::MAX, 1), u32::MAX);
    assert_eq!(Compute::tile_count(u32::MAX, u32::MAX), 1);
    assert_eq!(Compute::tile_count(5, u32::MAX), 1);
}

#[test]
fn update_covers_a_display_of_any_width() {
    for width in [0u32, 1, 31, 32, 33, 1000, 1919, 1920, u32::MAX] {
        let mut stage = Compute::new(width, 100);
        let step = stage.update(width);
        assert!(step.groups_x as u64 * 32 >= width as u64);
        assert!((step.groups_x as u64) * 32 < width as u64 + 32);
        assert_eq!(step.groups_y, 13);
        assert_eq!(step.groups_z, 1);
    }
}

#[test]
fn on_resize_makes_both_textures_anew() {
    let mut stage = Compute::new(1440, 512);
    stage.update(1440);
    stage.on_resize(1024, 128);
    let size = TextureSize { width: 1024, height: 128 };
    assert_eq!(stage.texture_size(0), size);
    assert_eq!(stage.texture_size(1), size);
    assert_eq!(stage.height(), 128);
    assert_eq!(stage.output(), 0);
}

#[test]
fn update_after_resize_uses_the_new_size() {
    let mut stage = Compute::new(1440, 512);
    stage.on_resize(1440, 2048);
    let step = stage.update(1440);
    let size = TextureSize { width: 1440, height: 2048 };
    assert_eq!(step.history_size, size);
    assert_eq!(step.current_size, size);
    assert_eq!(step.groups_y, 256);
}

#[test]
fn fit_fft_size_resizes_only_on_a_change() {
    let mut stage = Compute::new(1440, 512);
    assert!(!stage.fit_fft_size(1440, 1024));
    assert_eq!(stage.height(), 512);
    assert!(stage.fit_fft_size(1440, 2048));
    assert_eq!(stage.height(), 1024);
    assert_eq!(stage.texture_size(0), TextureSize { width: 1440, height: 1024 });
    assert!(!stage.fit_fft_size(1440, 2049));
    assert!(stage.fit_fft_size(1440, 32));
    assert_eq!(stage.height(), 16);
}

#[test]
fn process_frame_resizes_packs_and_steps() {
    let mut stage = Compute::new(1440, 512);
    let bins: Vec<u32> = (1..=256).collect();
    let frame = SpectrumFrame::new(bins.clone(), 3).unwrap();
    let work = stage.process_frame(1440, &frame, 9);
    assert!(work.resized);
    assert_eq!(work.record.length, 129);
    assert_eq!(work.record.data[..129].to_vec(), bins[..129].to_vec());
    assert!(work.record.data[129..].iter().all(|slot| *slot == 0));
    assert_eq!(work.record.factor, 9);
    let size = TextureSize { width: 1440, height: 128 };
    assert_eq!(work.step.history, 1);
    assert_eq!(work.step.current, 0);
    assert_eq!(work.step.history_size, size);
    assert_eq!(work.step.current_size, size);
    assert_eq!(work.step.groups_x, 45);
    assert_eq!(work.step.groups_y, 16);
    assert_eq!(stage.output(), 0);
    assert_eq!(stage.height(), 128);
    let work = stage.process_frame(1440, &frame, 9);
    assert!(!work.resized);
    assert_eq!(work.step.history, 0);
    assert_eq!(work.step.current, 1);
    assert_eq!(stage.output(), 1);
}

#[test]
fn process_frame_takes_every_supported_size() {
    let mut stage = Compute::new(800, 512);
    let mut size = 32usize;
    while size <= 4096 {
        let frame = SpectrumFrame::new(vec![1u32; size], 0).unwrap();
        let work = stage.process_frame(800, &frame, 1);
        assert_eq!(work.record.length as usize, size / 2 + 1);
        assert_eq!(work.step.current_size.height as usize, size / 2);
        assert_eq!(work.step.history_size.height as usize, size / 2);
        assert_eq!(stage.height() as usize, size / 2);
        size *= 2;
    }
}

#[test]
fn to_bytes_lays_out_slots_count_and_gain() {
    let stage = Compute::new(800, 512);
    let spectrum = bits(&[0.5, -1.25, 1024.0]);
    let record = stage.update_data(&spectrum, 0.15f32.to_bits()).unwrap();
    let bytes = record.to_bytes();
    assert_eq!(bytes.len(), 4096 * 4 + 8);
    assert_eq!(bytes[0..4], 0.5f32.to_ne_bytes());
    assert_eq!(bytes[4..8], (-1.25f32).to_ne_bytes());
    assert_eq!(bytes[8..12], 1024.0f32.to_ne_bytes());
    assert!(bytes[12..16384].iter().all(|byte| *byte == 0));
    assert_eq!(bytes[16384..16388], 3u32.to_ne_bytes());
    assert_eq!(bytes[16388..16392], 0.15f32.to_ne_bytes());
}

#[test]
fn to_bytes_of_a_new_record() {
    let bytes = SampleData::new().to_bytes();
    assert_eq!(bytes.len(), 16392);
    assert!(bytes[..16384].iter().all(|byte| *byte == 0));
    assert_eq!(bytes[16384..16388], 4096u32.to_ne_bytes());
    assert_eq!(bytes[16388..16392], 0.15f32.to_ne_bytes());
}

#[test]
fn to_bytes_writes_each_word_in_one_byte_order() {
    let record = SampleData { data: vec![0x0102_0304, 0xA0B0_C0D0], length: 2, factor: 0x1122_3344 };
    let bytes = record.to_bytes();
    let little: Vec<u8> = [0x0102_0304u32, 0xA0B0_C0D0, 2, 0x1122_3344]
        .iter()
        .flat_map(|word| word.to_le_bytes())
        .collect();
    let big: Vec<u8> = [0x0102_0304u32, 0xA0B0_C0D0, 2, 0x1122_3344]
        .iter()
        .flat_map(|word| word.to_be_bytes())
        .collect();
    assert!(bytes == little || bytes == big);
    assert_eq!(bytes.len(), 16);
}

#[test]
fn record_bytes_is_the_size_of_a_full_record() {
    assert_eq!(RECORD_BYTES, (MAX_BUFFER_SIZE + 2) * 4);
    assert_eq!(SampleData::new().to_bytes().len(), RECORD_BYTES);
}

#[test]
fn rows_for_is_half_the_analysis_size() {
    assert_eq!(Compute::rows_for(1024), 512);
    assert_eq!(Compute::rows_for(32), 16);
    assert_eq!(Compute::rows_for(4096), 2048);
    assert_eq!(Compute::rows_for(33), 16);
    assert_eq!(Compute::rows_for(0), 0);
}

#[test]
fn pack_fills_the_head_of_the_record() {
    let record = SampleData::pack(&[4, 5, 6], 2);
    assert_eq!(record.data.len(), 4096);
    assert_eq!(record.data[..4].to_vec(), vec![4, 5, 6, 0]);
    assert_eq!(record.length, 3);
    assert_eq!(record.factor, 2);
}
