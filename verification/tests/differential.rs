use pathfinder::config::DrivableConfig;
use pathfinder::drive::Pathfinder;
use pathfinder::mask::{Frame, Mask};
use pathfinder::proximity::{ray_dist, TrackObject};
use std::collections::{HashSet, VecDeque};

// The same search in double-precision arithmetic, to hold the fixed-point
// library against.

struct Grids {
    width: i32,
    height: i32,
    left: Vec<u8>,
    right: Vec<u8>,
    obstacles: Vec<u8>,
    finish: Vec<u8>,
}

#[derive(Clone, Copy, Debug, PartialEq)]
enum Hit {
    Left(u32),
    Right(u32),
    Obstacle(u32),
    Finish(u32),
}

fn float_ray(width: i32, height: i32, angle: f64) -> Vec<i32> {
    let tan_angle = angle.to_radians().tan();
    let center = width / 2;
    let mut indices = Vec::new();
    for row in (0..height).rev() {
        let offset = ((height - row) as f64) * tan_angle;
        if offset.abs() > center as f64 {
            break;
        }
        indices.push((row * width) - center + offset as i32);
    }
    indices
}

fn float_struck(grid: &[u8], width: i32, point: i32) -> bool {
    for row in [0, -1, 1] {
        for column in [-1, 0, 1] {
            let index = point as i64 + (row * width) as i64 + column as i64;
            if index >= 0 && (index as usize) < grid.len() && grid[index as usize] != 0 {
                return true;
            }
        }
    }
    false
}

fn float_dist(grids: &Grids, point: i32) -> u32 {
    let origin = ((grids.width / 2) as f32, grids.height as f32);
    let coords = ((point % grids.width) as f32, (point / grids.width) as f32);
    f32::sqrt((origin.0 - coords.0).powf(2.0) + (origin.1 - coords.1).powf(2.0)) as u32
}

fn float_hit(grids: &Grids, angle: f64) -> Option<Hit> {
    for point in float_ray(grids.width, grids.height, angle) {
        if float_struck(&grids.left, grids.width, point) {
            return Some(Hit::Left(float_dist(grids, point)));
        } else if float_struck(&grids.right, grids.width, point) {
            return Some(Hit::Right(float_dist(grids, point)));
        } else if float_struck(&grids.obstacles, grids.width, point) {
            return Some(Hit::Obstacle(float_dist(grids, point)));
        } else if float_struck(&grids.finish, grids.width, point) {
            return Some(Hit::Finish(float_dist(grids, point)));
        }
    }
    None
}

fn float_next(seen: &HashSet<i64>, angle: f64, hit: &Hit) -> Vec<f64> {
    let mut angles = vec![];
    let mut down = angle - 5.0;
    while seen.contains(&(down as i64)) {
        down -= 5.0;
    }
    let mut up = angle + 5.0;
    while seen.contains(&(up as i64)) {
        up += 5.0;
    }
    match hit {
        Hit::Finish(_) => {}
        Hit::Left(_) => {
            if up <= 90.0 {
                angles.push(up);
            }
        }
        Hit::Right(_) => {
            if down >= -90.0 {
                angles.push(down);
            }
        }
        Hit::Obstacle(_) => {
            if down >= -90.0 {
                angles.push(down);
            }
            if up <= 90.0 {
                angles.push(down);
            }
        }
    }
    angles
}

fn float_search(grids: &Grids) -> (f64, bool) {
    let (mut best_angle, mut max_dist): (f64, Option<u32>) = (0.0, None);
    let mut test_angles: VecDeque<f64> = VecDeque::from(vec![0.0]);
    let mut seen = HashSet::new();
    while let Some(angle) = test_angles.pop_front() {
        seen.insert(angle as i64);
        let hit = match float_hit(grids, angle) {
            None => return (angle, false),
            Some(hit) => hit,
        };
        let dist = match hit {
            Hit::Finish(dist) => {
                if dist < 10 {
                    return (best_angle, true);
                }
                continue;
            }
            Hit::Left(dist) | Hit::Right(dist) | Hit::Obstacle(dist) => dist,
        };
        if dist < 150 && max_dist.map_or(true, |best| dist > best) {
            (best_angle, max_dist) = (angle, Some(dist));
        }
        let new_angles = float_next(&seen, angle, &hit);
        if new_angles.is_empty() {
            break;
        }
        test_angles.extend(new_angles);
    }
    (best_angle, false)
}

struct Random(u64);

impl Random {
    fn next(&mut self) -> u64 {
        self.0 ^= self.0 << 13;
        self.0 ^= self.0 >> 7;
        self.0 ^= self.0 << 17;
        self.0
    }

    fn below(&mut self, bound: i32) -> i32 {
        (self.next() % bound as u64) as i32
    }
}

fn scatter(random: &mut Random, width: i32, height: i32, blocks: i32) -> Vec<u8> {
    let mut grid = vec![0u8; (width * height) as usize];
    for _ in 0..blocks {
        let w = 1 + random.below(width.min(12));
        let h = 1 + random.below(height.min(6));
        let x0 = random.below(width - w + 1);
        let y0 = random.below(height - h + 1);
        for y in y0..y0 + h {
            for x in x0..x0 + w {
                grid[(y * width + x) as usize] = 255;
            }
        }
    }
    grid
}

fn grids(random: &mut Random, obstacles: i32) -> Grids {
    let width = 20 + random.below(140);
    let height = 10 + random.below(110);
    Grids {
        width,
        height,
        left: scatter(random, width, height, random.0 as i32 & 3),
        right: scatter(random, width, height, (random.0 >> 8) as i32 & 3),
        obstacles: scatter(random, width, height, obstacles),
        finish: scatter(random, width, height, (random.0 >> 16) as i32 & 1),
    }
}

fn config() -> DrivableConfig {
    DrivableConfig {
        left_lower: vec![],
        left_upper: vec![],
        right_lower: vec![],
        right_upper: vec![],
        box_lower: vec![],
        box_upper: vec![],
        car_lower: vec![],
        car_upper: vec![],
        finish_lower: vec![],
        finish_upper: vec![],
        p_gain: 1_000_000,
        i_gain: 0,
        i_max: 0,
        speed: 0,
    }
}

fn hit_of(object: Option<TrackObject>) -> Option<Hit> {
    object.map(|object| match object {
        TrackObject::LeftLine(dist) => Hit::Left(dist),
        TrackObject::RightLine(dist) => Hit::Right(dist),
        TrackObject::Obstacle(dist) => Hit::Obstacle(dist),
        TrackObject::FinishLine(dist) => Hit::Finish(dist),
    })
}

#[test]
fn ray_hits_agree_with_double_precision_arithmetic() {
    let mut random = Random(0x2545_F491_4F6C_DD1D);
    for _ in 0..40 {
        let g = grids(&mut random, 2);
        let left = Mask::new(g.width, g.height, g.left.clone()).unwrap();
        let right = Mask::new(g.width, g.height, g.right.clone()).unwrap();
        let obstacles = Mask::new(g.width, g.height, g.obstacles.clone()).unwrap();
        let finish = Mask::new(g.width, g.height, g.finish.clone()).unwrap();
        let frame = Frame::new(&left, &right, &obstacles, &finish).unwrap();
        for angle in -90i64..=90 {
            assert_eq!(
                hit_of(ray_dist(&frame, &angle)),
                float_hit(&g, angle as f64),
                "{}x{} at {}",
                g.width,
                g.height,
                angle
            );
        }
    }
}

#[test]
fn searches_agree_with_double_precision_arithmetic() {
    let mut random = Random(0x9E37_79B9_7F4A_7C15);
    let pathfinder = Pathfinder::new(config());
    for round in 0..300 {
        let g = grids(&mut random, if round % 4 == 0 { 1 } else { 0 });
        let left = Mask::new(g.width, g.height, g.left.clone()).unwrap();
        let right = Mask::new(g.width, g.height, g.right.clone()).unwrap();
        let obstacles = Mask::new(g.width, g.height, g.obstacles.clone()).unwrap();
        let finish = Mask::new(g.width, g.height, g.finish.clone()).unwrap();
        let frame = Frame::new(&left, &right, &obstacles, &finish).unwrap();
        let outcome = pathfinder.smart_choose_angle(&frame);
        let (angle, stop) = float_search(&g);
        assert_eq!((outcome.angle as f64, outcome.stop), (angle, stop), "round {}", round);
    }
}
