pub mod snake;

pub use snake::Direction;
pub use snake::Position;
pub use snake::SnakeGame;
