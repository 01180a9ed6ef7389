use text_layout::geometry::{Point, Rect};
use text_layout::layout::{LayoutEvent, LayoutFit, TextLayout};
use text_layout::metrics::Fixed;
use text_layout::sink::LayoutSink;
use text_layout::style::{Color, TextStyle};

const FONT: Fixed = Fixed { width: 1, height: 1 };

/// Writes down every event by name.
struct Recorder {
    events: Vec<String>,
}

// Of what the recorder holds the library knows nothing: its state is empty.
impl LayoutSink<Fixed> for Recorder {
    type State = ();

    fn state(&self) {}

    fn accept(_state: (), _event: LayoutEvent<Fixed>) {}

    fn text(&mut self, _cursor: Point, _layout: &TextLayout<Fixed>, text: &str) {
        self.events.push(format!("text:{}", text));
    }

    fn hyphen(&mut self, _cursor: Point, _layout: &TextLayout<Fixed>) {
        self.events.push(String::from("hyphen"));
    }

    fn ellipsis(&mut self, _cursor: Point, _layout: &TextLayout<Fixed>) {
        self.events.push(String::from("ellipsis"));
    }

    fn prev_page_ellipsis(&mut self, _cursor: Point, _layout: &TextLayout<Fixed>) -> i16 {
        self.events.push(String::from("prev"));
        2
    }

    fn line_break(&mut self, cursor: Point) {
        self.events.push(format!("break:{},{}", cursor.x, cursor.y));
    }

    fn out_of_bounds(&mut self) {
        self.events.push(String::from("out"));
    }
}

fn one_line_page(width: i16) -> TextLayout<Fixed> {
    let style = TextStyle::new(FONT, Color(1), Color(2), Color(3), Color(4));
    TextLayout::new(style).with_bounds(Rect::new(Point::new(0, 0), Point::new(width, 1)))
}

#[test]
fn ellipsis_fires_before_out_of_bounds() {
    let layout = one_line_page(10);
    let mut cursor = layout.initial_cursor();
    let mut sink = Recorder { events: vec![] };
    let fit = layout.layout_text("hello world again", &mut cursor, &mut sink, false);
    assert_eq!(
        fit,
        LayoutFit::OutOfBounds {
            processed_chars: 6,
            height: 1
        }
    );
    assert_eq!(sink.events, vec!["text:hello", "ellipsis", "out"]);
}

fn record(layout: &TextLayout<Fixed>, text: &str, continues: bool) -> (LayoutFit, Vec<String>) {
    let mut cursor = layout.initial_cursor();
    let mut sink = Recorder { events: vec![] };
    let fit = layout.layout_text(text, &mut cursor, &mut sink, continues);
    (fit, sink.events)
}

#[test]
fn events_come_in_the_order_of_the_lines() {
    let layout =
        TextLayout::new(TextStyle::new(FONT, Color(1), Color(2), Color(3), Color(4)))
            .with_bounds(Rect::new(Point::new(0, 0), Point::new(5, 10)));
    let (fit, events) = record(&layout, "Down with the establishment!", true);
    assert_eq!(
        fit,
        LayoutFit::Fitting {
            processed_chars: 28,
            height: 8
        }
    );
    assert_eq!(
        events,
        vec![
            "prev",
            "text:Do",
            "hyphen",
            "break:0,2",
            "text:wn",
            "break:0,3",
            "text:with",
            "break:0,4",
            "text:the",
            "break:0,5",
            "text:esta",
            "hyphen",
            "break:0,6",
            "text:blis",
            "hyphen",
            "break:0,7",
            "text:hmen",
            "hyphen",
            "break:0,8",
            "text:t!",
        ]
    );
}

#[test]
fn out_of_bounds_is_said_once_and_last() {
    let texts = [
        "",
        "a",
        "hello world again",
        "Down with the establishment!",
        "a\n\n\nb\n",
        "ab\rcd\ref",
    ];
    for width in [0, 1, 3, 5, 12] {
        for height in [0, 1, 2, 4] {
            let layout = one_line_page(width)
                .with_bounds(Rect::new(Point::new(0, 0), Point::new(width, height)));
            for text in texts {
                for continues in [false, true] {
                    let (fit, events) = record(&layout, text, continues);
                    let outs = events.iter().filter(|event| *event == "out").count();
                    let ellipses: Vec<usize> = events
                        .iter()
                        .enumerate()
                        .filter(|(_, event)| *event == "ellipsis")
                        .map(|(at, _)| at)
                        .collect();
                    match fit {
                        LayoutFit::Fitting { .. } => {
                            assert_eq!(outs, 0);
                            assert!(ellipses.is_empty());
                        }
                        LayoutFit::OutOfBounds { .. } => {
                            assert_eq!(outs, 1);
                            assert_eq!(events.last().map(String::as_str), Some("out"));
                            assert!(ellipses.len() <= 1);
                            for at in ellipses {
                                assert_eq!(at + 2, events.len());
                                if at > 0 {
                                    assert!(events[at - 1] != "hyphen");
                                }
                            }
                        }
                    }
                }
            }
        }
    }
}
