use linfb::shape::{Bitmap, Color, Image, PositionedShape, Rectangle, Shape, ShapeKind};
use linfb::Compositor;

const RED: Color = Color { red: 255, green: 0, blue: 0, alpha: 255 };
const BLUE: Color = Color { red: 0, green: 0, blue: 255, alpha: 255 };

#[test]
fn rectangle_without_border_is_uniform() {
    let rectangle = Rectangle {
        width: 4,
        height: 3,
        border_width: 0,
        border_color: Some(BLUE),
        fill_color: Some(RED),
    };
    assert_eq!(rectangle.render(), vec![vec![Some(RED); 4]; 3]);
    let hollow = Rectangle {
        width: 2,
        height: 2,
        border_width: 0,
        border_color: Some(BLUE),
        fill_color: None,
    };
    assert_eq!(hollow.render(), vec![vec![None; 2]; 2]);
}

#[test]
fn rectangle_draws_its_border() {
    let rectangle = Rectangle {
        width: 4,
        height: 3,
        border_width: 1,
        border_color: Some(BLUE),
        fill_color: Some(RED),
    };
    let b = Some(BLUE);
    let f = Some(RED);
    assert_eq!(
        rectangle.render(),
        vec![vec![b, b, b, b], vec![b, f, f, b], vec![b, b, b, b]]
    );
}

#[test]
fn rectangle_border_wider_than_half_covers_all() {
    let rectangle = Rectangle {
        width: 3,
        height: 3,
        border_width: 2,
        border_color: None,
        fill_color: Some(RED),
    };
    assert_eq!(rectangle.render(), vec![vec![None; 3]; 3]);
    let huge = Rectangle {
        width: 2,
        height: 1,
        border_width: 10,
        border_color: Some(BLUE),
        fill_color: Some(RED),
    };
    assert_eq!(huge.render(), vec![vec![Some(BLUE); 2]]);
}

#[test]
fn rectangle_of_no_size_is_empty() {
    let flat = Rectangle {
        width: 5,
        height: 0,
        border_width: 1,
        border_color: Some(BLUE),
        fill_color: Some(RED),
    };
    assert_eq!(flat.render(), Vec::<Vec<Option<Color>>>::new());
    let thin = Rectangle {
        width: 0,
        height: 2,
        border_width: 1,
        border_color: Some(BLUE),
        fill_color: Some(RED),
    };
    assert_eq!(thin.render(), vec![Vec::<Option<Color>>::new(); 2]);
}

#[test]
fn rectangle_builder_fills_in_defaults() {
    let rectangle = Rectangle::builder().width(7).height(9).build().unwrap();
    assert_eq!(rectangle.width, 7);
    assert_eq!(rectangle.height, 9);
    assert_eq!(rectangle.border_width, 1);
    assert_eq!(rectangle.border_color, None);
    assert_eq!(rectangle.fill_color, None);
}

#[test]
fn rectangle_builder_takes_every_field() {
    let rectangle = Rectangle::builder()
        .width(7)
        .height(9)
        .border_width(0)
        .border_color(BLUE)
        .fill_color(RED)
        .build()
        .unwrap();
    assert_eq!(rectangle.border_width, 0);
    assert_eq!(rectangle.border_color, Some(BLUE));
    assert_eq!(rectangle.fill_color, Some(RED));
}

#[test]
fn rectangle_builder_names_the_missing_field() {
    assert_eq!(Rectangle::builder().build().unwrap_err(), "`width` must be initialized");
    assert_eq!(
        Rectangle::builder().height(3).build().unwrap_err(),
        "`width` must be initialized"
    );
    assert_eq!(
        Rectangle::builder().width(3).build().unwrap_err(),
        "`height` must be initialized"
    );
}

#[test]
fn at_places_a_shape() {
    let placed = Rectangle::builder().width(1).height(1).build().unwrap().at(3, 4);
    assert_eq!(placed.x, 3);
    assert_eq!(placed.y, 4);
    assert!(matches!(placed.shape, ShapeKind::Rectangle(_)));
    let same = PositionedShape::new(3, 4, Rectangle::builder().width(1).height(1).build().unwrap());
    assert_eq!(same.x, 3);
    assert_eq!(same.y, 4);
    assert_eq!(same.shape.render(), placed.shape.render());
}

#[test]
fn inner_gives_the_shape_only_as_its_own_type() {
    let mut placed = Rectangle::builder().width(2).height(1).build().unwrap().at(0, 0);
    assert_eq!(placed.inner::<Rectangle>().unwrap().width, 2);
    assert!(placed.inner::<Image>().is_none());
    assert!(placed.inner::<Compositor>().is_none());
    assert!(placed.inner::<Bitmap>().is_none());
    assert!(placed.inner_mut::<Image>().is_none());
    placed.inner_mut::<Rectangle>().unwrap().width = 5;
    assert_eq!(placed.inner::<Rectangle>().unwrap().width, 5);
    assert_eq!(placed.shape.render(), vec![vec![None; 5]]);
}

#[test]
fn bitmap_renders_its_rows() {
    let rows = vec![vec![Some(RED), None], vec![None, Some(BLUE)]];
    let bitmap = Bitmap::new(rows.clone());
    assert_eq!(bitmap.width, 2);
    assert_eq!(bitmap.render(), rows);
    assert_eq!(Bitmap::new(Vec::new()).width, 0);
}

#[test]
fn bitmap_fits_ragged_rows_to_its_width() {
    let bitmap = Bitmap::new(vec![vec![Some(RED), None], vec![Some(BLUE)], vec![None, None, Some(RED)]]);
    assert_eq!(
        bitmap.render(),
        vec![vec![Some(RED), None], vec![Some(BLUE), None], vec![None, None]]
    );
}

#[test]
fn placed_shape_is_found_as_its_own_type() {
    let image = Image::from_rgba(1, 1, vec![1, 2, 3, 4]);
    let grid = image.render();
    let placed = image.at(5, 6);
    assert_eq!((placed.x, placed.y), (5, 6));
    assert_eq!(placed.inner::<Image>().unwrap().data, vec![1, 2, 3, 4]);
    assert_eq!(placed.shape.render(), grid);
    let bitmap = Bitmap::new(vec![vec![None, Some(RED)]]);
    let placed = PositionedShape::new(0, 0, bitmap);
    assert_eq!(placed.inner::<Bitmap>().unwrap().width, 2);
    let placed = Compositor::new(1, 1, BLUE).at(0, 0);
    assert_eq!(placed.inner::<Compositor>().unwrap().background, BLUE);
}
