use tinyase::draw::{cel_image, clear, image_of_chunk, palette, ASEDrawing, CelImage, DrawError};
use tinyase::parser::chunk::{chunk_cel, ASEChunkHeader, ASEChunkReader, CelData, ChunkIterator};
use tinyase::parser::HeaderReader;

fn chunk(chunk_type: u16, payload: &[u8]) -> Vec<u8> {
    let mut v: Vec<u8> = Vec::new();
    v.extend_from_slice(&(6 + payload.len() as u32).to_le_bytes());
    v.extend_from_slice(&chunk_type.to_le_bytes());
    v.extend_from_slice(payload);
    v
}

fn cel_payload(x: i16, y: i16, cel_type: u16, body: &[u8]) -> Vec<u8> {
    let mut p: Vec<u8> = Vec::new();
    p.extend_from_slice(&0u16.to_le_bytes());
    p.extend_from_slice(&x.to_le_bytes());
    p.extend_from_slice(&y.to_le_bytes());
    p.push(255);
    p.extend_from_slice(&cel_type.to_le_bytes());
    p.extend_from_slice(&0i16.to_le_bytes());
    p.extend_from_slice(&[0u8; 5]);
    p.extend_from_slice(body);
    p
}

fn raw_body(width: u16, height: u16, pixels: &[u8]) -> Vec<u8> {
    let mut v: Vec<u8> = Vec::new();
    v.extend_from_slice(&width.to_le_bytes());
    v.extend_from_slice(&height.to_le_bytes());
    v.extend_from_slice(pixels);
    v
}

fn frame(chunks: &[Vec<u8>]) -> Vec<u8> {
    let mut body: Vec<u8> = Vec::new();
    for c in chunks {
        body.extend_from_slice(c);
    }
    let mut v: Vec<u8> = Vec::new();
    v.extend_from_slice(&(16 + body.len() as u32).to_le_bytes());
    v.extend_from_slice(&0xF1FAu16.to_le_bytes());
    v.extend_from_slice(&0u16.to_le_bytes());
    v.extend_from_slice(&100u16.to_le_bytes());
    v.extend_from_slice(&[0u8; 2]);
    v.extend_from_slice(&(chunks.len() as u32).to_le_bytes());
    v.extend_from_slice(&body);
    v
}

fn document(frames: u16, width: u16, height: u16, depth: u16, body: &[u8]) -> Vec<u8> {
    let mut v: Vec<u8> = Vec::new();
    v.extend_from_slice(&(128 + body.len() as u32).to_le_bytes());
    v.extend_from_slice(&0xA5E0u16.to_le_bytes());
    v.extend_from_slice(&frames.to_le_bytes());
    v.extend_from_slice(&width.to_le_bytes());
    v.extend_from_slice(&height.to_le_bytes());
    v.extend_from_slice(&depth.to_le_bytes());
    v.extend_from_slice(&[0u8; 114]);
    v.extend_from_slice(body);
    v
}

#[test]
fn palette_colours() {
    assert_eq!(palette(0), [0, 0, 0, 0]);
    assert_eq!(palette(1), [22, 18, 54, 255]);
    assert_eq!(palette(2), [255, 255, 255, 255]);
    assert_eq!(palette(3), [255, 255, 255, 255]);
    assert_eq!(palette(255), [255, 255, 255, 255]);
}

#[test]
fn size_is_the_canvas_size() {
    let v = document(0, 320, 0xFFFF, 8, &[]);
    let drawing = ASEDrawing { reader: HeaderReader::new(&v).unwrap() };
    assert_eq!(drawing.size(), (320, 65535));
}

#[test]
fn a_raw_cel_becomes_four_bytes_for_each_pixel() {
    let payload = cel_payload(-4, 9, 0, &raw_body(3, 2, &[0, 1, 2, 7, 1, 0]));
    let cel = chunk_cel(&payload).unwrap();
    let image = match cel.get(8) {
        Ok(CelData::Raw(image)) => image,
        _ => panic!("not a raw cel"),
    };
    let picture = cel_image(&image).unwrap();
    assert_eq!(
        picture,
        CelImage {
            x: -4,
            y: 9,
            width: 3,
            height: 2,
            rgba: vec![
                0, 0, 0, 0, 22, 18, 54, 255, 255, 255, 255, 255, 255, 255, 255, 255, 22, 18, 54, 255, 0,
                0, 0, 0
            ],
        }
    );
}

#[test]
fn a_deep_cel_is_shown_by_its_leading_bytes() {
    let pixels = [1u8, 0, 2, 0, 0, 0, 1, 1];
    let payload = cel_payload(0, 0, 0, &raw_body(2, 2, &pixels));
    let cel = chunk_cel(&payload).unwrap();
    let image = match cel.get(16) {
        Ok(CelData::Raw(image)) => image,
        _ => panic!("not a raw cel"),
    };
    let picture = cel_image(&image).unwrap();
    assert_eq!(picture.rgba.len(), 16);
    assert_eq!(&picture.rgba[0..4], &[22, 18, 54, 255]);
    assert_eq!(&picture.rgba[4..8], &[0, 0, 0, 0]);
    assert_eq!(&picture.rgba[8..12], &[255, 255, 255, 255]);
    assert_eq!(&picture.rgba[12..16], &[0, 0, 0, 0]);
}

#[test]
fn a_cel_with_fewer_samples_than_pixels_has_no_image() {
    let payload = cel_payload(0, 0, 0, &raw_body(3, 3, &[]));
    let cel = chunk_cel(&payload).unwrap();
    let image = match cel.get(0) {
        Ok(CelData::Raw(image)) => image,
        _ => panic!("not a raw cel"),
    };
    assert!(image.ptr.is_empty());
    assert!(cel_image(&image).is_none());
}

#[test]
fn an_empty_cel_has_an_empty_image() {
    let payload = cel_payload(1, 1, 0, &raw_body(0, 0, &[]));
    let cel = chunk_cel(&payload).unwrap();
    let image = match cel.get(8) {
        Ok(CelData::Raw(image)) => image,
        _ => panic!("not a raw cel"),
    };
    let picture = cel_image(&image).unwrap();
    assert!(picture.rgba.is_empty());
    assert_eq!((picture.width, picture.height), (0, 0));
}

#[test]
fn only_raw_cels_have_an_image() {
    let raw = chunk(0x2005, &cel_payload(2, 3, 0, &raw_body(1, 1, &[1])));
    let linked = chunk(0x2005, &cel_payload(2, 3, 1, &[0, 0]));
    let packed = chunk(0x2005, &cel_payload(2, 3, 2, &raw_body(1, 1, &[1])));
    let other = chunk(0x2019, &cel_payload(2, 3, 0, &raw_body(1, 1, &[1])));
    let short = chunk(0x2005, &cel_payload(2, 3, 0, &raw_body(2, 2, &[1])));
    let first = |bytes: &Vec<u8>| {
        let mut it = ChunkIterator { ptr: bytes, remaining: 1 };
        let c = it.next().unwrap();
        image_of_chunk(&c, 8)
    };
    assert_eq!(first(&raw).unwrap().rgba, vec![22, 18, 54, 255]);
    assert!(first(&linked).is_none());
    assert!(first(&packed).is_none());
    assert!(first(&other).is_none());
    assert!(first(&short).is_none());
    let broken = ASEChunkReader(ASEChunkHeader { size: 100, chunk_type: 0x2005 }, &[0u8; 4]);
    assert!(image_of_chunk(&broken, 8).is_none());
}

#[test]
fn first_frame_images_come_in_chunk_order() {
    let first = frame(&[
        chunk(0x2019, &[0; 8]),
        chunk(0x2005, &cel_payload(0, 0, 0, &raw_body(2, 1, &[1, 2]))),
        chunk(0x2005, &cel_payload(5, 5, 1, &[0, 0])),
        chunk(0x2005, &cel_payload(7, -7, 0, &raw_body(1, 2, &[0, 1]))),
        chunk(0x2005, &cel_payload(7, -7, 9, &raw_body(1, 2, &[0, 1]))),
    ]);
    let second = frame(&[chunk(0x2005, &cel_payload(3, 3, 0, &raw_body(1, 1, &[2])))]);
    let mut body = first.clone();
    body.extend_from_slice(&second);
    let v = document(2, 8, 8, 8, &body);
    let drawing = ASEDrawing { reader: HeaderReader::new(&v).unwrap() };
    let images = drawing.first_frame_images().unwrap();
    assert_eq!(
        images,
        vec![
            CelImage { x: 0, y: 0, width: 2, height: 1, rgba: vec![22, 18, 54, 255, 255, 255, 255, 255] },
            CelImage { x: 7, y: -7, width: 1, height: 2, rgba: vec![0, 0, 0, 0, 22, 18, 54, 255] },
        ]
    );
}

#[test]
fn a_document_without_a_first_frame_shows_nothing() {
    let one = frame(&[chunk(0x2005, &cel_payload(0, 0, 0, &raw_body(1, 1, &[1])))]);
    let none_declared = document(0, 8, 8, 8, &one);
    let drawing = ASEDrawing { reader: HeaderReader::new(&none_declared).unwrap() };
    assert!(drawing.first_frame_images().is_none());
    let cut = document(1, 8, 8, 8, &one[..one.len() - 1]);
    let drawing = ASEDrawing { reader: HeaderReader::new(&cut).unwrap() };
    assert!(drawing.first_frame_images().is_none());
    let mut wrong = one.clone();
    wrong[4] = 0;
    let wrong = document(1, 8, 8, 8, &wrong);
    let drawing = ASEDrawing { reader: HeaderReader::new(&wrong).unwrap() };
    assert!(drawing.first_frame_images().is_none());
    let whole = document(1, 8, 8, 8, &one);
    let drawing = ASEDrawing { reader: HeaderReader::new(&whole).unwrap() };
    assert_eq!(drawing.first_frame_images().unwrap().len(), 1);
}

#[test]
fn a_frame_without_cels_shows_an_empty_list() {
    let v = document(1, 8, 8, 8, &frame(&[chunk(0x2019, &[0; 8])]));
    let drawing = ASEDrawing { reader: HeaderReader::new(&v).unwrap() };
    assert_eq!(drawing.first_frame_images(), Some(vec![]));
}

const GREY: [u8; 4] = [0x8b, 0x8b, 0x8b, 0xff];
const INK: [u8; 4] = [22, 18, 54, 255];
const WHITE: [u8; 4] = [255, 255, 255, 255];

fn pixel(frame: &[u8], width: usize, x: usize, y: usize) -> [u8; 4] {
    let at = 4 * (y * width + x);
    [frame[at], frame[at + 1], frame[at + 2], frame[at + 3]]
}

#[test]
fn clear_fills_with_opaque_grey() {
    let mut frame = vec![7u8; 12];
    clear(&mut frame);
    assert_eq!(frame, vec![0x8b, 0x8b, 0x8b, 0xff, 0x8b, 0x8b, 0x8b, 0xff, 0x8b, 0x8b, 0x8b, 0xff]);
    let mut odd = vec![7u8; 6];
    clear(&mut odd);
    assert_eq!(odd, vec![0x8b, 0x8b, 0x8b, 0xff, 0x8b, 0x8b]);
    let mut empty: Vec<u8> = Vec::new();
    clear(&mut empty);
    assert!(empty.is_empty());
}

#[test]
fn draw_composites_the_first_frame_over_grey() {
    let first = frame(&[
        chunk(0x2005, &cel_payload(1, 1, 0, &raw_body(2, 2, &[1, 0, 2, 1]))),
        chunk(0x2005, &cel_payload(2, 2, 0, &raw_body(1, 1, &[2]))),
    ]);
    let v = document(1, 4, 4, 8, &first);
    let drawing = ASEDrawing { reader: HeaderReader::new(&v).unwrap() };
    let mut canvas = vec![0u8; 4 * 4 * 4];
    assert_eq!(drawing.draw(&mut canvas, 4, 4), Ok(()));
    assert_eq!(canvas.len(), 64);
    for y in 0..4usize {
        for x in 0..4usize {
            let expected = match (x, y) {
                (1, 1) => INK,
                (2, 1) => GREY,
                (1, 2) => WHITE,
                (2, 2) => WHITE,
                _ => GREY,
            };
            assert_eq!(pixel(&canvas, 4, x, y), expected);
        }
    }
}

#[test]
fn draw_clips_what_lies_beyond_the_canvas() {
    let first = frame(&[chunk(0x2005, &cel_payload(2, 2, 0, &raw_body(2, 2, &[1, 2, 2, 2])))]);
    let v = document(1, 3, 3, 8, &first);
    let drawing = ASEDrawing { reader: HeaderReader::new(&v).unwrap() };
    let mut canvas = vec![0u8; 4 * 3 * 3];
    assert_eq!(drawing.draw(&mut canvas, 3, 3), Ok(()));
    for y in 0..3usize {
        for x in 0..3usize {
            let expected = if (x, y) == (2, 2) { INK } else { GREY };
            assert_eq!(pixel(&canvas, 3, x, y), expected);
        }
    }
}

#[test]
fn draw_keeps_the_canvas_size_wherever_an_image_lies() {
    for (x, y) in [(-1i16, 2i16), (-32768, -32768), (32767, 32767), (-5, 0), (0, -2), (1, 1)] {
        let first = frame(&[chunk(0x2005, &cel_payload(x, y, 0, &raw_body(2, 2, &[1, 2, 1, 2])))]);
        let v = document(1, 3, 3, 8, &first);
        let drawing = ASEDrawing { reader: HeaderReader::new(&v).unwrap() };
        let mut canvas = vec![0u8; 4 * 3 * 3];
        assert_eq!(drawing.draw(&mut canvas, 3, 3), Ok(()));
        assert_eq!(canvas.len(), 36);
    }
}

#[test]
fn draw_without_images_leaves_the_background() {
    let v = document(1, 2, 2, 8, &frame(&[chunk(0x2019, &[0; 8])]));
    let drawing = ASEDrawing { reader: HeaderReader::new(&v).unwrap() };
    let mut canvas = vec![1u8; 16];
    assert_eq!(drawing.draw(&mut canvas, 2, 2), Ok(()));
    for i in 0..4usize {
        assert_eq!(&canvas[4 * i..4 * i + 4], &GREY);
    }
}

#[test]
fn draw_passes_over_an_empty_image() {
    let first = frame(&[
        chunk(0x2005, &cel_payload(0, 0, 0, &raw_body(0, 3, &[]))),
        chunk(0x2005, &cel_payload(0, 0, 0, &raw_body(1, 1, &[1]))),
    ]);
    let v = document(1, 1, 1, 8, &first);
    let drawing = ASEDrawing { reader: HeaderReader::new(&v).unwrap() };
    let mut canvas = vec![0u8; 4];
    assert_eq!(drawing.draw(&mut canvas, 1, 1), Ok(()));
    assert_eq!(canvas, INK.to_vec());
}

#[test]
fn draw_wants_four_bytes_for_each_pixel() {
    let first = frame(&[chunk(0x2005, &cel_payload(0, 0, 0, &raw_body(1, 1, &[1])))]);
    let v = document(1, 2, 2, 8, &first);
    let drawing = ASEDrawing { reader: HeaderReader::new(&v).unwrap() };
    for len in [0usize, 15, 17, 64] {
        let mut canvas = vec![3u8; len];
        assert_eq!(drawing.draw(&mut canvas, 2, 2), Err(DrawError::CanvasSize));
        assert_eq!(canvas, vec![3u8; len]);
    }
    let mut canvas = vec![3u8; 16];
    assert_eq!(drawing.draw(&mut canvas, 0xFFFF_FFFF, 0xFFFF_FFFF), Err(DrawError::CanvasSize));
    assert_eq!(drawing.draw(&mut canvas, 4, 1), Ok(()));
}

#[test]
fn draw_on_a_canvas_without_pixels_draws_nothing() {
    let first = frame(&[chunk(0x2005, &cel_payload(0, 0, 0, &raw_body(1, 1, &[1])))]);
    let v = document(1, 2, 2, 8, &first);
    let drawing = ASEDrawing { reader: HeaderReader::new(&v).unwrap() };
    let mut canvas: Vec<u8> = Vec::new();
    assert_eq!(drawing.draw(&mut canvas, 0, 7), Ok(()));
    assert!(canvas.is_empty());
}

#[test]
fn draw_wants_a_first_frame() {
    let v = document(0, 2, 2, 8, &[]);
    let drawing = ASEDrawing { reader: HeaderReader::new(&v).unwrap() };
    let mut canvas = vec![3u8; 16];
    assert_eq!(drawing.draw(&mut canvas, 2, 2), Err(DrawError::NoFirstFrame));
    assert_eq!(canvas, vec![3u8; 16]);
    let mut short = vec![3u8; 15];
    assert_eq!(drawing.draw(&mut short, 2, 2), Err(DrawError::CanvasSize));
}
