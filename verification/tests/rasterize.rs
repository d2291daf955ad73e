use rideviz_rs::pipeline::rasterize::{finish_svg, inject_watermark, watermark_layout, WatermarkLayout};
use rideviz_rs::types::viz::OutputConfig;

#[test]
fn injects_a_single_watermark_group() {
    let svg = "<svg xmlns=\"http://www.w3.org/2000/svg\" width=\"100\" height=\"100\"></svg>";
    let injected = inject_watermark(svg, 100, 100);
    assert!(injected.contains("id=\"rideviz-watermark\""));
    assert!(injected.contains("rideviz.online"));

    let injected_twice = inject_watermark(&injected, 100, 100);
    assert_eq!(
        injected_twice.matches("id=\"rideviz-watermark\"").count(),
        1
    );
}

#[test]
fn the_watermark_is_laid_out_for_the_canvas() {
    assert_eq!(
        watermark_layout(1080, 1920),
        WatermarkLayout {
            font_size: 38,
            text_x: 540,
            text_y: 1877,
            box_x: 349,
            box_y: 1820,
            box_width: 382,
            box_height: 76,
            radius: 6,
            border_width: 3,
        }
    );
    // A small canvas keeps the smallest font, and the box stays within it.
    assert_eq!(
        watermark_layout(100, 100),
        WatermarkLayout {
            font_size: 13,
            text_x: 50,
            text_y: 84,
            box_x: 6,
            box_y: 65,
            box_width: 88,
            box_height: 25,
            radius: 4,
            border_width: 1,
        }
    );
    let tiny = watermark_layout(0, 0);
    assert_eq!((tiny.text_x, tiny.text_y, tiny.box_width, tiny.box_height), (0, 0, 0, 0));
}

#[test]
fn the_watermark_goes_before_the_end_of_the_document() {
    let svg = "<svg><g></g></svg><!-- </svg> -->";
    let out = inject_watermark(svg, 1080, 1920);
    let expected_group = "<g id=\"rideviz-watermark\"><rect x=\"349\" y=\"1820\" width=\"382\" height=\"76\" rx=\"6\" fill=\"rgb(255,255,255)\" fill-opacity=\"0.90\" stroke=\"rgb(0,0,0)\" stroke-opacity=\"0.92\" stroke-width=\"3\" /><text x=\"540\" y=\"1877\" font-family=\"Geist Pixel, DejaVu Sans Mono, DejaVu Sans, sans-serif\" font-size=\"38\" text-anchor=\"middle\" fill=\"rgb(0,0,0)\" fill-opacity=\"0.92\">rideviz.online</text></g>";
    assert_eq!(out, format!("<svg><g></g>{expected_group}</svg><!-- </svg> -->"));
    // Without an end of the document the watermark is put last.
    assert_eq!(inject_watermark("<svg>", 1080, 1920), format!("<svg>{expected_group}"));
    assert_eq!(inject_watermark("", 1080, 1920), expected_group);
    // A second injection changes nothing, whatever the canvas.
    assert_eq!(inject_watermark(&out, 4096, 320), out);
}

#[test]
fn the_scene_is_finished_for_its_output() {
    let svg = "<svg></svg>";
    let plain = OutputConfig { width: 100, height: 100, background: None, watermark: false };
    assert_eq!(finish_svg(svg, &plain), svg);
    let marked = OutputConfig { watermark: true, ..plain };
    assert_eq!(finish_svg(svg, &marked), inject_watermark(svg, 100, 100));
    assert!(finish_svg(svg, &marked).contains("rideviz-watermark"));
}

#[test]
fn the_id_of_the_watermark_stands_once() {
    let scenes = [
        "<svg><text>rideviz-water</text><g id=\"watermark\"></g></svg>",
        "<svg></svg><svg></svg>",
        "no closing tag, but a rideviz-watermar",
        "",
    ];
    for scene in scenes {
        for (width, height) in [(100, 100), (1080, 1920), (4096, 4096), (0, 0)] {
            let out = inject_watermark(scene, width, height);
            assert_eq!(out.matches("rideviz-watermark").count(), 1);
            let at = out.find("rideviz-watermark").expect("the id is there");
            let place = scene.find("</svg>").unwrap_or(scene.len());
            assert_eq!(at, place + "<g id=\"".len());
        }
    }
}
