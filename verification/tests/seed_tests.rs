use game_of_life::grid::Grid;

#[test]
fn seed_keeps_dimensions() {
    let mut g = Grid::new(7, 9).unwrap();
    g.seed();
    assert_eq!(g.width(), 7);
    assert_eq!(g.height(), 9);
    for x in 0..7 {
        for y in 0..9 {
            assert!(g.get(x, y).is_ok());
        }
    }
}

#[test]
fn seed_from_places_each_draw() {
    let mut g = Grid::new(3, 2).unwrap();
    let bits = vec![true, false, true, true, false, false];
    g.seed_from(&bits);
    for x in 0..3 {
        for y in 0..2 {
            assert_eq!(g.get(x, y), Ok(bits[x * 2 + y]), "cell ({}, {})", x, y);
        }
    }
}

#[test]
fn seed_from_overwrites_every_cell() {
    let mut g = Grid::new(2, 2).unwrap();
    for x in 0..2 {
        for y in 0..2 {
            g.set(x, y, true).unwrap();
        }
    }
    g.seed_from(&vec![false, false, false, false]);
    for x in 0..2 {
        for y in 0..2 {
            assert_eq!(g.get(x, y), Ok(false));
        }
    }
}

#[test]
fn seed_fraction_converges_toward_half() {
    let mut g = Grid::new(100, 100).unwrap();
    for _ in 0..10 {
        g.seed();
        let mut alive: usize = 0;
        for x in 0..100 {
            for y in 0..100 {
                if g.get(x, y).unwrap() {
                    alive += 1;
                }
            }
        }
        // 10000 draws at probability one half: a count outside this band is
        // more than twenty standard deviations out
        assert!(
            4000 <= alive && alive <= 6000,
            "alive fraction far from one half: {} of 10000",
            alive
        );
    }
}

#[test]
fn seed_biases_no_cell() {
    let probes = [(0usize, 0usize), (49, 49), (99, 0), (0, 99), (99, 99)];
    let mut seen_alive = [false; 5];
    let mut seen_dead = [false; 5];
    let mut g = Grid::new(100, 100).unwrap();
    for _ in 0..50 {
        g.seed();
        for (k, &(x, y)) in probes.iter().enumerate() {
            if g.get(x, y).unwrap() {
                seen_alive[k] = true;
            } else {
                seen_dead[k] = true;
            }
        }
    }
    for k in 0..probes.len() {
        assert!(seen_alive[k], "cell {:?} never alive over 50 seeds", probes[k]);
        assert!(seen_dead[k], "cell {:?} never dead over 50 seeds", probes[k]);
    }
}
