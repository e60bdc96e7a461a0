use iced::widget::image::Handle;
use maolan_video::frame::{
    picture_holds, rgba_pixels, strip_pixels, thumb_size, thumbs_fit_strip, PictureShape, Thumb,
};
use maolan_video::presenter::{PresentableFrame, VideoPresenter};
use maolan_video::types::{VideoFrameBuffer, VideoFrameMetadata, VideoFrameRef, VideoTextureHandle};

#[test]
fn rows_are_packed() {
    let data: Vec<u8> = (0..20).collect();
    assert!(picture_holds(&data, 10, 2, 2));
    assert_eq!(
        rgba_pixels(&data, 10, 2, 2),
        vec![0, 1, 2, 3, 4, 5, 6, 7, 10, 11, 12, 13, 14, 15, 16, 17]
    );
    assert_eq!(rgba_pixels(&data, 8, 1, 2), vec![0, 1, 2, 3, 8, 9, 10, 11]);
    assert_eq!(rgba_pixels(&[], 8, 1, 0), Vec::<u8>::new());
}

#[test]
fn short_pictures_are_told() {
    let data: Vec<u8> = vec![0; 18];
    assert!(picture_holds(&data, 10, 2, 2));
    assert!(!picture_holds(&data[..17], 10, 2, 2));
    assert!(!picture_holds(&data, 10, u32::MAX, u32::MAX));
}

#[test]
fn thumbnail_sizes_keep_the_shape() {
    assert_eq!(thumb_size(1920, 1080), (85, 48));
    assert_eq!(thumb_size(640, 480), (64, 48));
    assert_eq!(thumb_size(20, 10), (20, 10));
    assert_eq!(thumb_size(1, 1000), (1, 48));
    assert_eq!(thumb_size(0, 10), (1, 10));
    assert_eq!(thumb_size(1, 32), (1, 32));
    assert_eq!(thumb_size(3, 96), (2, 48));
    assert_eq!(thumb_size(u32::MAX, 1), (u32::MAX, 1));
}

#[test]
fn scaler_serves_pictures_of_one_shape() {
    let shape = PictureShape::new(7, 0, 0);
    assert_eq!((shape.width, shape.height), (1, 1));
    assert!(shape.needs_new_scaler(None));
    assert!(!shape.needs_new_scaler(Some(PictureShape::new(7, 1, 1))));
    assert!(shape.needs_new_scaler(Some(PictureShape::new(8, 1, 1))));
    assert!(shape.needs_new_scaler(Some(PictureShape::new(7, 2, 1))));
}

#[test]
fn strips_need_all_rows_of_a_thumbnail() {
    let thumbs = vec![Thumb { width: 1, height: 2, pixels: vec![1, 2, 3, 4, 5, 6, 7, 8] }];
    assert!(thumbs_fit_strip(&thumbs, 2));
    assert!(!thumbs_fit_strip(&thumbs, 3));
    assert_eq!(strip_pixels(&thumbs, 2), vec![1, 2, 3, 4, 5, 6, 7, 8]);
    let wide = vec![
        Thumb { width: u32::MAX, height: 0, pixels: Vec::new() },
        Thumb { width: 1, height: 0, pixels: Vec::new() },
    ];
    assert!(!thumbs_fit_strip(&wide, 0));
}

#[test]
fn frame_in_memory_is_shown_as_an_image_of_its_pixels() {
    let presenter = VideoPresenter::new();
    let buffer = VideoFrameBuffer {
        width: 2,
        height: 1,
        rgba: vec![1, 2, 3, 4, 5, 6, 7, 8],
        pts_samples: 0,
    };
    match presenter.presentable_frame(&VideoFrameRef::Cpu(&buffer)) {
        Some(PresentableFrame::CpuImage(Handle::Rgba { width, height, pixels, .. })) => {
            assert_eq!((width, height), (2, 1));
            assert_eq!(&pixels[..], &[1, 2, 3, 4, 5, 6, 7, 8]);
        }
        _ => panic!("no image"),
    }
    match presenter.image_handle(&VideoFrameRef::Cpu(&buffer)) {
        Some(Handle::Rgba { pixels, .. }) => assert_eq!(&pixels[..], &buffer.rgba[..]),
        _ => panic!("no image"),
    }
}

#[test]
fn blank_frame_is_not_shown() {
    let presenter = VideoPresenter::default();
    for (width, height, rgba) in [(0, 1, vec![0; 4]), (1, 0, vec![0; 4]), (1, 1, Vec::new())] {
        let buffer = VideoFrameBuffer { width, height, rgba, pts_samples: 0 };
        assert!(presenter.presentable_frame(&VideoFrameRef::Cpu(&buffer)).is_none());
        assert!(presenter.image_handle(&VideoFrameRef::Cpu(&buffer)).is_none());
    }
}

#[test]
fn frame_of_the_registry_is_shown_as_its_texture() {
    let presenter = VideoPresenter::new();
    let handle = VideoTextureHandle { slot: 4, generation: 2 };
    let metadata = VideoFrameMetadata { width: 1, height: 1, pts_samples: 0 };
    let frame = VideoFrameRef::Gpu { handle, metadata };
    match presenter.presentable_frame(&frame) {
        Some(PresentableFrame::GpuTexture(shown)) => assert_eq!(shown, handle),
        _ => panic!("no texture"),
    }
    assert!(presenter.image_handle(&frame).is_none());
}
