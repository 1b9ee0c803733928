use outfiles::BuilderMethods;
use outfiles::TargetFromBuilder;

pub struct TargetStruct {
    x2: u32,
    xy: u32,
    y2: u32,
}

#[derive(Default)]
pub struct Builder {
    x: u32,
    y: u32,
}

impl Builder {
    pub fn set_x(&mut self, x: u32) -> &mut Self {
        self.x = x;
        self
    }

    pub fn set_y(&mut self, y: u32) -> &mut Self {
        self.y = y;
        self
    }
}

impl BuilderMethods for Builder {
    type Target = TargetStruct;

    fn build(&mut self) -> TargetStruct {
        TargetStruct { x2: self.x * self.x, xy: self.x * self.y, y2: self.y * self.y }
    }
}

impl TargetFromBuilder for TargetStruct {
    type Builder = Builder;
}

#[test]
fn build() {
    let target = TargetStruct::builder().set_x(1).set_y(2).build();

    assert_eq!(1, target.x2);
    assert_eq!(2, target.xy);
    assert_eq!(4, target.y2);
}
